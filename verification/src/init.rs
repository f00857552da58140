//! How a locker is made ready, and ready again after a reconnect.

use vstd::prelude::*;

use crate::error::{not_connected, Error, ErrorKind};
use crate::gate::Wake;
use crate::locker::Locker;
use crate::script::Script;

verus! {

/// A `CLIENT TRACKING` request, for all prefixes.
#[derive(Clone, Copy, Debug, PartialEq, Eq, Structural)]
pub struct Tracking {
    /// Whether keys are tracked without having been read.
    pub bcast: bool,
    /// Whether reads are tracked only where the client says so.
    pub optin: bool,
    /// Whether reads are tracked unless the client says otherwise.
    pub optout: bool,
    /// Whether the client's own writes are left out.
    pub noloop: bool,
}

/// The tracking that a locker asks for: every read is tracked unless the caller opts
/// out. The `GET` inside the scripts then arms tracking on the lock key.
pub open spec fn tracking_for(settings: crate::config::SettingsView) -> Tracking {
    Tracking { bcast: false, optin: false, optout: true, noloop: settings.no_loop }
}

/// What whoever initializes a locker does next.
pub enum InitStep {
    /// Nothing: it is ready.
    Ready,
    /// Preload the scripts in order, whatever comes of it; then ask for tracking if
    /// there is a request; then go on with [`Locker::initialize`].
    Load(Vec<Script>, Option<Tracking>),
    /// Give up.
    Failed(Error),
}

impl<C> Locker<C> {
    /// Starts to make the locker ready: preload the scripts and arm client tracking.
    /// The client must be connected. Once it succeeded, further calls do nothing.
    pub fn init(&self, connected: bool) -> (step: InitStep)
        ensures
            match step {
                InitStep::Ready => self@.initialized,
                InitStep::Failed(error) => {
                    &&& !self@.initialized
                    &&& !connected
                    &&& error.says(ErrorKind::Config, crate::error::not_connected_text())
                },
                InitStep::Load(scripts, tracking) => {
                    &&& !self@.initialized
                    &&& connected
                    &&& scripts@ == seq![
                        self@.settings.scripts.acquire,
                        self@.settings.scripts.force,
                        self@.settings.scripts.extend,
                        self@.settings.scripts.del,
                    ]
                    &&& tracking == if self@.settings.no_caching {
                        None
                    } else {
                        Some(tracking_for(self@.settings))
                    }
                },
            },
    {
        if self.is_initialized() {
            return InitStep::Ready;
        }
        if !connected {
            return InitStep::Failed(not_connected());
        }
        let settings = self.settings();
        let mut scripts: Vec<Script> = Vec::new();
        scripts.push(settings.scripts.acquire);
        scripts.push(settings.scripts.force);
        scripts.push(settings.scripts.extend);
        scripts.push(settings.scripts.del);
        let tracking = if settings.no_caching {
            None
        } else {
            Some(self.tracking())
        };
        InitStep::Load(scripts, tracking)
    }

    /// Ends initialization with what came of the request for tracking, or with success
    /// if there was none. A failure leaves the locker uninitialized, so that it
    /// can be tried again. On success, says whether the tasks that listen for pushes
    /// and reconnects are to be started.
    pub fn initialize(&mut self, armed: Result<(), Error>) -> (listen: Result<bool, Error>)
        requires
            old(self)@.wf(),
        ensures
            final(self)@.wf(),
            final(self).connection() == old(self).connection(),
            match armed {
                Ok(_) => {
                    &&& listen == Ok::<bool, Error>(!old(self)@.settings.no_caching)
                    &&& final(self)@ == (crate::state::LockerView {
                        initialized: true,
                        ..old(self)@
                    })
                },
                Err(error) => listen == Err::<bool, Error>(error) && final(self)@ == old(self)@,
            },
    {
        match armed {
            Ok(_) => {
                self.set_initialized();
                Ok(!self.settings().no_caching)
            },
            Err(error) => Err(error),
        }
    }

    /// The request for tracking: made by `init`, and again after every reconnect,
    /// since a new connection tracks nothing.
    pub fn tracking(&self) -> (tracking: Tracking)
        ensures
            tracking == tracking_for(self@.settings),
    {
        Tracking { bcast: false, optin: false, optout: true, noloop: self.settings().no_loop }
    }

    /// The signals to give after a reconnect, whatever came of the request for tracking:
    /// anything may have changed meanwhile, so everyone checks.
    pub fn rearmed(&self, _armed: &Result<(), Error>) -> (wakes: Vec<Wake>)
        requires
            self@.wf(),
        ensures
            wakes@ == self@.all_gate_wakes(),
    {
        self.wake_all_gates()
    }
}

} // verus!
