//! Lockers: their gates, the acquisitions they handed out, and how they are closed.

use std::sync::Arc;

use vstd::hash_map::StringHashMap;
use vstd::hash_set::HashSetWithView;
use vstd::prelude::*;

use crate::config::{LockerConfig, Settings};
use crate::gate::{Cancellation, Gate, Wake};
use crate::key::parse_key;
use crate::state::Slot;
use crate::text::from_utf8;

verus! {

/// The keys that the server says have changed.
#[derive(Clone, Debug)]
pub struct Invalidation {
    /// The keys, as the bytes that the server sent.
    pub keys: Vec<Vec<u8>>,
}

/// A message on the client's invalidation channel.
#[derive(Debug)]
pub enum Push {
    /// Keys changed.
    Received(Invalidation),
    /// Messages were dropped.
    Lagged,
    /// There will be no more.
    Closed,
}

/// What remains to be done when a locker was closed.
pub struct Closing {
    /// The signals to give, in order.
    pub wakes: Vec<Wake>,
    /// Whether client tracking is to be turned off then.
    pub stop_tracking: bool,
}

/// A Redis-backed lock manager over a client of type `C`.
///
/// A locker hands out many concurrent locks, one per unique name. Its methods decide;
/// whoever drives it makes the calls to the server and waits.
pub struct Locker<C> {
    client: C,
    settings: Settings,
    gates: StringHashMap<Slot>,
    names: Vec<String>,
    outstanding: Vec<Arc<Cancellation>>,
    held: HashSetWithView<u64>,
    closed: bool,
    initialized: bool,
    issued: u64,
}

impl<C> View for Locker<C> {
    type V = crate::state::LockerView;

    closed spec fn view(&self) -> crate::state::LockerView {
        crate::state::LockerView {
            settings: self.settings@,
            gates: self.gates@,
            names: self.names@.map_values(|name: String| name@),
            outstanding: self.outstanding@,
            held: self.held@,
            closed: self.closed,
            initialized: self.initialized,
            issued: self.issued,
        }
    }
}

impl<C> Locker<C> {
    /// The client it was built around.
    pub closed spec fn connection(self) -> C {
        self.client
    }

    /// Builds a locker around a client. Call [`init`](Locker::init) before the first
    /// acquisition so that tracking is wired up.
    pub fn from_client(cfg: LockerConfig, client: C) -> (locker: Self)
        ensures
            locker@.wf(),
            locker@ == (crate::state::LockerView {
                settings: crate::config::settings_of(cfg@),
                gates: Map::empty(),
                names: Seq::empty(),
                outstanding: Seq::empty(),
                held: Set::empty(),
                closed: false,
                initialized: false,
                issued: 0,
            }),
            locker.connection() == client,
    {
        broadcast use vstd::std_specs::hash::group_hash_axioms;

        let locker = Locker {
            client,
            settings: cfg.into_settings(),
            gates: StringHashMap::new(),
            names: Vec::new(),
            outstanding: Vec::new(),
            held: HashSetWithView::new(),
            closed: false,
            initialized: false,
            issued: 0,
        };
        assert(locker@.names =~= Seq::empty());
        locker
    }

    /// The client it was built around.
    pub fn client(&self) -> (client: &C)
        ensures
            *client == self.connection(),
    {
        &self.client
    }

    /// Whether one more gate use or acquisition can be numbered.
    pub fn has_room(&self) -> (room: bool)
        ensures
            room == self@.has_room(),
    {
        self.issued < u64::MAX
    }

    /// Whether it was closed.
    pub fn is_closed(&self) -> (closed: bool)
        ensures
            closed == self@.closed,
    {
        self.closed
    }

    /// Whether initialization succeeded before.
    pub fn is_initialized(&self) -> (initialized: bool)
        ensures
            initialized == self@.initialized,
    {
        self.initialized
    }

    /// Notes that initialization succeeded.
    pub(crate) fn set_initialized(&mut self)
        requires
            old(self)@.wf(),
        ensures
            final(self)@.wf(),
            final(self).connection() == old(self).connection(),
            final(self)@ == (crate::state::LockerView { initialized: true, ..old(self)@ }),
    {
        self.initialized = true;
    }

    /// What it works with.
    pub fn settings(&self) -> (settings: &Settings)
        ensures
            settings@ == self@.settings,
    {
        &self.settings
    }

    /// `name`'s gate, with one more user: every user gives it up with
    /// [`drop_gate`](Locker::drop_gate). None if the locker is closed.
    pub fn get_or_create_gate(&mut self, name: &str) -> (gate: Option<Arc<Gate>>)
        requires
            old(self)@.wf(),
            !old(self)@.closed ==> old(self)@.has_room(),
        ensures
            final(self)@.wf(),
            final(self).connection() == old(self).connection(),
            match gate {
                Some(gate) => {
                    &&& !old(self)@.closed
                    &&& old(self)@.admits(name@, &*gate)
                    &&& final(self)@ == old(self)@.entered(name@, gate)
                },
                None => old(self)@.closed && final(self)@ == old(self)@,
            },
    {
        if self.closed {
            return None;
        }
        let ghost before = self@;
        let found = match self.gates.get(name) {
            Some(slot) => Some((slot.gate.clone(), slot.refs)),
            None => None,
        };
        let gate = match found {
            Some((gate, refs)) => {
                self.gates.insert(name.to_owned(), Slot { gate: gate.clone(), refs: refs + 1 });
                gate
            },
            None => {
                let gate = Arc::new(Gate::new(self.issued));
                self.gates.insert(name.to_owned(), Slot { gate: gate.clone(), refs: 1 });
                self.names.push(name.to_owned());
                assert(self@.names =~= before.names.push(name@));
                gate
            },
        };
        self.issued += 1;
        assert(self@ =~= before.entered(name@, gate));
        proof {
            crate::state::entering_keeps_wf(before, name@, gate);
        }
        Some(gate)
    }

    /// Gives up one use of a gate. The last user takes it out of the table.
    pub fn drop_gate(&mut self, name: &str, gate: &Gate)
        requires
            old(self)@.wf(),
        ensures
            final(self)@.wf(),
            final(self).connection() == old(self).connection(),
            final(self)@ == old(self)@.left(name@, gate),
    {
        let ghost before = self@;
        let found = match self.gates.get(name) {
            Some(slot) => if slot.gate.id() == gate.id() {
                Some((slot.gate.clone(), slot.refs))
            } else {
                None
            },
            None => None,
        };
        if let Some((own, refs)) = found {
            if refs <= 1 {
                self.gates.remove(name);
                self.forget_name(name);
            } else {
                self.gates.insert(name.to_owned(), Slot { gate: own, refs: refs - 1 });
            }
        }
        assert(self@ =~= before.left(name@, gate));
        proof {
            crate::state::leaving_keeps_wf(before, name@, gate);
        }
    }

    /// Takes a name out of the row of names.
    fn forget_name(&mut self, name: &str)
        requires
            old(self)@.names.no_duplicates(),
            old(self)@.names.contains(name@),
        ensures
            final(self).connection() == old(self).connection(),
            final(self)@ == (crate::state::LockerView {
                names: old(self)@.names.remove(old(self)@.names.index_of(name@)),
                ..old(self)@
            }),
    {
        let ghost before = self@;
        let ghost at = before.names.index_of(name@);
        let wanted = name.to_owned();
        let mut i: usize = 0;
        while i < self.names.len() && self.names[i] != wanted
            invariant
                wanted@ == name@,
                self@ == before,
                self.connection() == old(self).connection(),
                i <= at < self.names@.len(),
                self.names@[at]@ == name@,
            decreases self.names@.len() - i,
        {
            i += 1;
        }
        assert(before.names[i as int] == name@);
        self.names.remove(i);
        assert(self@.names =~= before.names.remove(at));
    }

    /// Hands out a new acquisition, so that [`close`](Locker::close) can tell its
    /// holder. None if the locker is closed: then the caller must bail out, since
    /// nobody would ever cancel it.
    pub fn register_outstanding(&mut self) -> (cancel: Option<Arc<Cancellation>>)
        requires
            old(self)@.wf(),
            !old(self)@.closed ==> old(self)@.has_room(),
        ensures
            final(self)@.wf(),
            final(self).connection() == old(self).connection(),
            match cancel {
                Some(cancel) => {
                    &&& !old(self)@.closed
                    &&& cancel.number() == old(self)@.issued
                    &&& final(self)@ == old(self)@.registered(cancel)
                },
                None => old(self)@.closed && final(self)@ == old(self)@,
            },
    {
        if self.closed {
            return None;
        }
        let cancel = Arc::new(Cancellation::new(self.issued));
        self.outstanding.push(cancel.clone());
        self.held.insert(self.issued);
        self.issued += 1;
        Some(cancel)
    }

    /// Where an acquisition stands among those not given back.
    fn find_outstanding(&self, number: u64) -> (at: Option<usize>)
        ensures
            match at {
                Some(at) => at < self.outstanding@.len() && self.outstanding@[at as int].number()
                    == number,
                None => forall|i: int|
                    0 <= i < self.outstanding@.len() ==> #[trigger] self.outstanding@[i].number()
                        != number,
            },
    {
        let mut i: usize = 0;
        while i < self.outstanding.len()
            invariant
                i <= self.outstanding@.len(),
                forall|j: int|
                    0 <= j < i ==> #[trigger] self.outstanding@[j].number() != number,
            decreases self.outstanding@.len() - i,
        {
            if self.outstanding[i].id() == number {
                return Some(i);
            }
            i += 1;
        }
        None
    }

    /// Gives an acquisition back: [`close`](Locker::close) no longer tells its holder.
    /// Whether it was cancelled stays as it is.
    pub fn deregister_outstanding(&mut self, cancel: &Cancellation)
        requires
            old(self)@.wf(),
        ensures
            final(self)@.wf(),
            final(self).connection() == old(self).connection(),
            final(self)@ == old(self)@.deregistered(cancel.number()),
    {
        let ghost before = self@;
        let ghost rest = crate::state::others(cancel.number());
        match self.find_outstanding(cancel.id()) {
            Some(at) => {
                proof {
                    crate::state::lemma_filter_one(before.outstanding, rest, at as int);
                }
                self.outstanding.remove(at);
            },
            None => {
                proof {
                    crate::state::lemma_filter_all(before.outstanding, rest);
                }
            },
        }
        proof {
            crate::state::deregistering_keeps_wf(before, cancel.number());
        }
    }

    /// Whether an acquisition was cancelled.
    pub fn is_cancelled(&self, cancel: &Cancellation) -> (cancelled: bool)
        ensures
            cancelled == !self@.live(cancel.number()),
    {
        !self.held.contains(&cancel.id())
    }

    /// Cancels an acquisition. The first time, the signal to give is returned.
    pub fn cancel(&mut self, cancel: &Arc<Cancellation>) -> (wakes: Vec<Wake>)
        requires
            old(self)@.wf(),
        ensures
            final(self)@.wf(),
            final(self).connection() == old(self).connection(),
            final(self)@ == old(self)@.cancelled(cancel.number()),
            wakes@ == old(self)@.cancel_wakes(*cancel),
    {
        let mut wakes: Vec<Wake> = Vec::new();
        let id: u64 = cancel.id();
        if self.held.remove(&id) {
            wakes.push(Wake::Lost(cancel.clone()));
        }
        wakes
    }

    /// The signals that wake every gate: when the locker is closed, so that pending
    /// acquirers see it at once, and when pushes were missed, so that holders
    /// check what they hold.
    pub fn wake_all_gates(&self) -> (wakes: Vec<Wake>)
        requires
            self@.wf(),
        ensures
            wakes@ == self@.all_gate_wakes(),
    {
        let mut wakes: Vec<Wake> = Vec::new();
        let mut i: usize = 0;
        while i < self.names.len()
            invariant
                self@.wf(),
                i <= self.names@.len(),
                wakes@ =~= self@.all_gate_wakes().take(2 * i as int),
            decreases self.names@.len() - i,
        {
            assert(self@.names[i as int] == self.names@[i as int]@);
            assert(self@.names.contains(self@.names[i as int]));
            if let Some(slot) = self.gates.get(self.names[i].as_str()) {
                wakes.push(Wake::FreeAll(slot.gate.clone()));
                wakes.push(Wake::Holder(slot.gate.clone()));
            }
            i += 1;
        }
        wakes
    }

    /// The signals when the lock `name` may be free or its key changed. At most one
    /// waiter wakes; later arrivals retry on their own.
    pub fn notify_gate(&self, name: &str) -> (wakes: Vec<Wake>)
        ensures
            wakes@ == self@.gate_wakes(name@),
    {
        let mut wakes: Vec<Wake> = Vec::new();
        if let Some(slot) = self.gates.get(name) {
            wakes.push(Wake::Free(slot.gate.clone()));
            wakes.push(Wake::Holder(slot.gate.clone()));
        }
        wakes
    }

    /// The signals of an invalidation.
    pub fn dispatch(&self, invalidation: &Invalidation) -> (wakes: Vec<Wake>)
        requires
            self@.wf(),
        ensures
            wakes@ == self@.invalidation_wakes(invalidation.keys@),
    {
        let keys = &invalidation.keys;
        if keys.len() == 0 {
            return self.wake_all_gates();
        }
        let mut wakes: Vec<Wake> = Vec::new();
        let mut i: usize = 0;
        assert(keys@.take(0) =~= Seq::empty());
        while i < keys.len()
            invariant
                i <= keys@.len(),
                wakes@ =~= self@.keys_wakes(keys@.take(i as int)),
            decreases keys@.len() - i,
        {
            assert(keys@.take(i + 1).drop_last() =~= keys@.take(i as int));
            if let Some(key) = from_utf8(keys[i].as_slice()) {
                if let Some(name) = parse_key(self.settings.prefix.as_str(), key) {
                    let mut woken = self.notify_gate(name);
                    wakes.append(&mut woken);
                }
            }
            i += 1;
        }
        assert(keys@.take(i as int) =~= keys@);
        wakes
    }

    /// What comes of a message on the client's invalidation channel.
    pub fn pushed(&self, push: &Push) -> (wakes: Option<Vec<Wake>>)
        requires
            self@.wf(),
        ensures
            match push {
                Push::Received(invalidation) => wakes matches Some(wakes) && wakes@
                    == self@.invalidation_wakes(invalidation.keys@),
                Push::Lagged => wakes matches Some(wakes) && wakes@ == self@.all_gate_wakes(),
                Push::Closed => wakes is None,
            },
    {
        match push {
            Push::Received(invalidation) => Some(self.dispatch(invalidation)),
            Push::Lagged => Some(self.wake_all_gates()),
            Push::Closed => None,
        }
    }

    /// Closes the locker: every acquisition that was not given back is cancelled, and
    /// everyone who waits is woken to find it closed. None if it was closed before.
    pub fn close(&mut self) -> (closing: Option<Closing>)
        requires
            old(self)@.wf(),
        ensures
            final(self)@.wf(),
            final(self).connection() == old(self).connection(),
            match closing {
                Some(closing) => {
                    &&& !old(self)@.closed
                    &&& final(self)@ == old(self)@.shut()
                    &&& closing.wakes@ == old(self)@.cancel_all_wakes()
                        + old(self)@.all_gate_wakes()
                    &&& closing.stop_tracking == !old(self)@.settings.no_caching
                },
                None => old(self)@.closed && final(self)@ == old(self)@,
            },
    {
        if self.closed {
            return None;
        }
        let ghost before = self@;
        let mut wakes: Vec<Wake> = Vec::new();
        let mut i: usize = 0;
        assert(before.outstanding.take(0) =~= Seq::empty());
        assert(before.outstanding.take(0).filter(before.held_ones()) =~= Seq::empty()) by {
            reveal(Seq::filter);
        }
        while i < self.outstanding.len()
            invariant
                before.wf(),
                self@ == (crate::state::LockerView { held: self@.held, ..before }),
                self.connection() == old(self).connection(),
                i <= self.outstanding@.len(),
                forall|number: u64| #[trigger]
                    self@.held.contains(number) <==> before.held.contains(number) && forall|j: int|
                        0 <= j < i ==> #[trigger] before.outstanding[j].number() != number,
                wakes@ =~= before.outstanding.take(i as int).filter(
                    before.held_ones(),
                ).map_values(crate::state::lost_wake()),
            decreases self.outstanding@.len() - i,
        {
            proof {
                reveal(Seq::filter);
                assert(before.outstanding.take(i + 1).drop_last() =~= before.outstanding.take(
                    i as int,
                ));
            }
            let cancel = self.outstanding[i].clone();
            let id: u64 = cancel.id();
            if self.held.remove(&id) {
                wakes.push(Wake::Lost(cancel));
            }
            i += 1;
        }
        assert(before.outstanding.take(i as int) =~= before.outstanding);
        assert(self@.held =~= before.shut().held);
        let mut woken = self.wake_all_gates();
        wakes.append(&mut woken);
        self.closed = true;
        self.outstanding = Vec::new();
        Some(Closing { wakes, stop_tracking: !self.settings.no_caching })
    }
}

} // verus!
