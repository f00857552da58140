//! What holds of lockers as a whole.

use std::sync::Arc;

use vstd::multiset::Multiset;
use vstd::prelude::*;

use crate::acquire::{Mode, Step};
use crate::error::{Error, ErrorKind};
use crate::extender::{Action, Event};
use crate::gate::{Cancellation, Gate, Wake};
use crate::script::Script;

verus! {

// Gates.

/// A new user of a gate counts once under its name, and nobody else is touched.
pub proof fn entering_counts_one(
    v: crate::state::LockerView,
    name: Seq<char>,
    gate: Arc<Gate>,
    other: Seq<char>,
)
    requires
        v.wf(),
        v.has_room(),
        v.admits(name, &*gate),
        other != name,
    ensures
        v.entered(name, gate).uses(name, &*gate),
        v.entered(name, gate).refs(name) == v.refs(name) + 1,
        v.entered(name, gate).gates.contains_key(other) == v.gates.contains_key(other),
        v.gates.contains_key(other) ==> v.entered(name, gate).gates[other] == v.gates[other],
{
}

/// A user who leaves counts no more, the last one takes its gate along, and nobody
/// else is touched.
pub proof fn leaving_counts_one(
    v: crate::state::LockerView,
    name: Seq<char>,
    gate: &Gate,
    other: Seq<char>,
)
    requires
        v.wf(),
        v.uses(name, gate),
        other != name,
    ensures
        v.left(name, gate).refs(name) == v.refs(name) - 1,
        v.left(name, gate).gates.contains_key(name) <==> v.refs(name) > 1,
        v.left(name, gate).gates.contains_key(other) == v.gates.contains_key(other),
        v.gates.contains_key(other) ==> v.left(name, gate).gates[other] == v.gates[other],
{
}

/// The change of a lock's key wakes that lock's gate.
pub proof fn own_key_wakes_its_gate(v: crate::state::LockerView, name: Seq<char>)
    ensures
        v.key_wakes(vstd::utf8::encode_utf8(crate::key::key_of(v.settings.prefix, name)))
            == v.gate_wakes(name),
{
    let key = crate::key::key_of(v.settings.prefix, name);
    vstd::utf8::encode_utf8_valid_utf8(key);
    vstd::utf8::encode_utf8_decode_utf8(key);
    crate::key::name_is_read_back(v.settings.prefix, name);
}

/// The change of any other key wakes nobody.
pub proof fn foreign_key_wakes_nobody(v: crate::state::LockerView, key: Seq<u8>)
    requires
        forall|name: Seq<char>|
            v.gates.contains_key(name) ==> key != vstd::utf8::encode_utf8(
                #[trigger] crate::key::key_of(v.settings.prefix, name),
            ),
    ensures
        v.key_wakes(key) == Seq::<Wake>::empty(),
{
    if vstd::utf8::valid_utf8(key) {
        let text = vstd::utf8::decode_utf8(key);
        vstd::utf8::decode_utf8_encode_utf8(key);
        crate::key::only_own_keys_are_read(v.settings.prefix, text);
        match crate::key::name_of(v.settings.prefix, text) {
            Some(name) => {
                assert(text == crate::key::key_of(v.settings.prefix, name));
            },
            None => {},
        }
    }
}

/// Whether the table counts each of these uses of a gate, and nothing else.
pub open spec fn accounts_for(
    v: crate::state::LockerView,
    users: Multiset<(Seq<char>, Arc<Gate>)>,
) -> bool {
    forall|name: Seq<char>, gate: Arc<Gate>| #[trigger]
        users.count((name, gate)) == if v.gates.contains_key(name) && v.gates[name].gate == gate {
            v.gates[name].refs as nat
        } else {
            0
        }
}

/// A gate stays in the table as long as someone uses it, and only so long.
pub proof fn gate_stays_while_used(
    v: crate::state::LockerView,
    users: Multiset<(Seq<char>, Arc<Gate>)>,
    name: Seq<char>,
)
    requires
        v.wf(),
        accounts_for(v, users),
    ensures
        v.gates.contains_key(name) <==> exists|gate: Arc<Gate>| #[trigger]
            users.count((name, gate)) > 0,
        forall|gate: Arc<Gate>| #[trigger]
            users.count((name, gate)) > 0 ==> v.gates[name].gate == gate,
{
    if v.gates.contains_key(name) {
        assert(users.count((name, v.gates[name].gate)) > 0);
    }
}

/// A request is accounted for: the attempt that it starts uses a gate, and a
/// request that fails uses none.
pub proof fn request_is_accounted_for(
    v: crate::state::LockerView,
    new: crate::state::LockerView,
    users: Multiset<(Seq<char>, Arc<Gate>)>,
    name: Seq<char>,
    mode: Mode,
    now: int,
    step: Step,
)
    requires
        v.wf(),
        !v.closed ==> v.has_room(),
        accounts_for(v, users),
        crate::acquire::begins(v, new, name, mode, now, step),
    ensures
        match step {
            Step::Eval(attempt, _) => accounts_for(new, users.insert((name, attempt@.gate))),
            _ => accounts_for(new, users),
        },
{
    if let Step::Eval(attempt, _) = step {
        let after = users.insert((name, attempt@.gate));
        assert forall|n: Seq<char>, g: Arc<Gate>| #[trigger]
            after.count((n, g)) == if new.gates.contains_key(n) && new.gates[n].gate == g {
                new.gates[n].refs as nat
            } else {
                0
            } by {
            assert(after.count((n, g)) == users.count((n, g)) + if n == name && g
                == attempt@.gate {
                1nat
            } else {
                0
            });
        }
    }
}

/// Whoever leaves a gate is accounted for no more.
pub proof fn leaving_is_accounted_for(
    v: crate::state::LockerView,
    users: Multiset<(Seq<char>, Arc<Gate>)>,
    name: Seq<char>,
    gate: Arc<Gate>,
)
    requires
        v.wf(),
        accounts_for(v, users),
        users.count((name, gate)) > 0,
    ensures
        accounts_for(v.left(name, &*gate), users.remove((name, gate))),
{
    let new = v.left(name, &*gate);
    let after = users.remove((name, gate));
    assert forall|n: Seq<char>, g: Arc<Gate>| #[trigger]
        after.count((n, g)) == if new.gates.contains_key(n) && new.gates[n].gate == g {
            new.gates[n].refs as nat
        } else {
            0
        } by {
        assert(users.count((n, g)) == after.count((n, g)) + if n == name && g == gate {
            1nat
        } else {
            0
        });
    }
}

/// A reply is accounted for: an attempt that fails leaves its gate, and any other goes
/// on using it, as a waiter, until its key is given back, or as the guard.
pub proof fn reply_is_accounted_for(
    v: crate::state::LockerView,
    new: crate::state::LockerView,
    users: Multiset<(Seq<char>, Arc<Gate>)>,
    attempt: crate::acquire::AttemptView,
    reply: Result<Option<String>, Error>,
    step: Step,
)
    requires
        v.wf(),
        accounts_for(v, users),
        users.count((attempt.name, attempt.gate)) > 0,
        crate::acquire::answered(v, new, attempt, reply, step),
    ensures
        match step {
            Step::Failed(_) => accounts_for(new, users.remove((attempt.name, attempt.gate))),
            Step::Held(guard, _) => guard@.name == attempt.name && guard@.gate == attempt.gate
                && accounts_for(new, users),
            _ => accounts_for(new, users),
        },
{
    if step is Failed {
        leaving_is_accounted_for(v, users, attempt.name, attempt.gate);
    }
}

/// Whoever uses a lock's gate is reached: by a push for the lock's key, and when a guard
/// of the same name ends. One waiter and the holder's extender are woken.
pub proof fn signals_reach_the_users(
    v: crate::state::LockerView,
    users: Multiset<(Seq<char>, Arc<Gate>)>,
    name: Seq<char>,
    gate: Arc<Gate>,
)
    requires
        v.wf(),
        accounts_for(v, users),
        users.count((name, gate)) > 0,
    ensures
        v.gate_wakes(name) == seq![Wake::Free(gate), Wake::Holder(gate)],
        v.key_wakes(vstd::utf8::encode_utf8(crate::key::key_of(v.settings.prefix, name)))
            == seq![Wake::Free(gate), Wake::Holder(gate)],
{
    own_key_wakes_its_gate(v, name);
}

// Cancellation.

/// An acquisition that was cancelled stays so, whatever happens.
pub proof fn lost_stays_lost(
    v: crate::state::LockerView,
    number: u64,
    name: Seq<char>,
    gate: Arc<Gate>,
    cancel: Arc<Cancellation>,
    other: u64,
)
    requires
        v.wf(),
        number < v.issued,
        !v.live(number),
        cancel.number() == v.issued,
    ensures
        !v.entered(name, gate).live(number),
        !v.left(name, &*gate).live(number),
        !v.registered(cancel).live(number),
        !v.cancelled(other).live(number),
        !v.deregistered(other).live(number),
        !v.shut().live(number),
{
}

/// An acquisition that is held stays so until it is cancelled, or the locker closed
/// before it was given back. Giving it back does not cancel it.
pub proof fn held_until_cancelled(
    v: crate::state::LockerView,
    number: u64,
    name: Seq<char>,
    gate: Arc<Gate>,
    cancel: Arc<Cancellation>,
    other: u64,
)
    requires
        v.live(number),
        other != number,
    ensures
        v.entered(name, gate).live(number),
        v.left(name, &*gate).live(number),
        v.registered(cancel).live(number),
        v.cancelled(other).live(number),
        v.deregistered(other).live(number),
        v.deregistered(number).live(number),
        v.shut().live(number) <==> !v.is_outstanding(number),
{
}

/// An acquisition that was handed out stays outstanding until it is given back or the
/// locker closed.
pub proof fn outstanding_until_given_back(
    v: crate::state::LockerView,
    number: u64,
    name: Seq<char>,
    gate: Arc<Gate>,
    cancel: Arc<Cancellation>,
    other: u64,
)
    requires
        v.is_outstanding(number),
        other != number,
    ensures
        v.entered(name, gate).is_outstanding(number),
        v.left(name, &*gate).is_outstanding(number),
        v.registered(cancel).is_outstanding(number),
        v.cancelled(other).is_outstanding(number),
        v.cancelled(number).is_outstanding(number),
        v.deregistered(other).is_outstanding(number),
{
    let i = choose|i: int| 0 <= i < v.outstanding.len() && v.outstanding[i].number() == number;
    assert(v.entered(name, gate).outstanding[i].number() == number);
    assert(v.left(name, &*gate).outstanding[i].number() == number);
    assert(v.registered(cancel).outstanding[i].number() == number);
    assert(v.cancelled(other).outstanding[i].number() == number);
    assert(v.cancelled(number).outstanding[i].number() == number);
    let w = v.deregistered(other);
    v.outstanding.lemma_filter_contains(crate::state::others(other), i);
    let j = choose|j: int| 0 <= j < w.outstanding.len() && w.outstanding[j] == v.outstanding[i];
    assert(w.outstanding[j].number() == number);
}

/// Cancelling tells everyone at most once, and doing it again changes nothing.
pub proof fn cancelling_happens_once(v: crate::state::LockerView, cancel: Arc<Cancellation>)
    requires
        v.wf(),
    ensures
        !v.cancelled(cancel.number()).live(cancel.number()),
        v.cancelled(cancel.number()).cancel_wakes(cancel) == Seq::<Wake>::empty(),
        v.cancelled(cancel.number()).cancelled(cancel.number()) == v.cancelled(
            cancel.number(),
        ),
{
}

/// Giving a lock up before its guard ends changes nothing of what the end comes to,
/// and tells everyone at most once.
pub proof fn release_happens_once(v: crate::state::LockerView, cancel: Arc<Cancellation>)
    requires
        v.wf(),
    ensures
        v.released(cancel.number()).released(cancel.number()) == v.released(cancel.number()),
        v.released(cancel.number()).cancel_wakes(cancel) == Seq::<Wake>::empty(),
        !v.released(cancel.number()).is_outstanding(cancel.number()),
{
    let w = v.released(cancel.number());
    assert(w.outstanding == v.deregistered(cancel.number()).outstanding);
    crate::state::deregistering_keeps_wf(v, cancel.number());
    assert forall|i: int| 0 <= i < w.outstanding.len() implies crate::state::others(
        cancel.number(),
    )(#[trigger] w.outstanding[i]) by {
        v.outstanding.lemma_filter_pred(crate::state::others(cancel.number()), i);
    }
    crate::state::lemma_filter_all(w.outstanding, crate::state::others(cancel.number()));
}

// Closing.

/// Whether two states agree on the settings, and on whether the locker is ready or closed.
pub open spec fn same_standing(
    v: crate::state::LockerView,
    w: crate::state::LockerView,
) -> bool {
    v.settings == w.settings && v.initialized == w.initialized && v.closed == w.closed
}

/// A closed locker stays closed, and a locker that is ready stays ready, with the
/// settings it was given.
pub proof fn closed_stays_closed(
    v: crate::state::LockerView,
    name: Seq<char>,
    gate: Arc<Gate>,
    cancel: Arc<Cancellation>,
    number: u64,
)
    ensures
        same_standing(v, v.entered(name, gate)),
        same_standing(v, v.left(name, &*gate)),
        same_standing(v, v.registered(cancel)),
        same_standing(v, v.cancelled(number)),
        same_standing(v, v.deregistered(number)),
        v.shut().closed,
        v.shut().initialized == v.initialized,
        v.shut().settings == v.settings,
{
}

/// Closing a locker cancels every acquisition that was not given back, and tells
/// everyone who was not told.
pub proof fn closing_cancels_everything(v: crate::state::LockerView, cancel: Arc<Cancellation>)
    requires
        v.wf(),
        v.outstanding.contains(cancel),
    ensures
        !v.shut().live(cancel.number()),
        v.live(cancel.number()) ==> v.cancel_all_wakes().contains(Wake::Lost(cancel)),
{
    let at = choose|at: int| 0 <= at < v.outstanding.len() && v.outstanding[at] == cancel;
    assert(v.outstanding[at].number() == cancel.number());
    if v.live(cancel.number()) {
        let kept = v.outstanding.filter(v.held_ones());
        v.outstanding.lemma_filter_contains(v.held_ones(), at);
        let i = choose|i: int| 0 <= i < kept.len() && kept[i] == cancel;
        assert(v.cancel_all_wakes()[i] == Wake::Lost(cancel));
    }
}

/// Closing a locker wakes everyone who waits for a lock, and every holder.
pub proof fn closing_wakes_every_gate(v: crate::state::LockerView, name: Seq<char>)
    requires
        v.wf(),
        v.gates.contains_key(name),
    ensures
        v.all_gate_wakes().contains(Wake::FreeAll(v.gates[name].gate)),
        v.all_gate_wakes().contains(Wake::Holder(v.gates[name].gate)),
{
    assert(v.names.contains(name));
    let i = choose|i: int| 0 <= i < v.names.len() && v.names[i] == name;
    assert(v.all_gate_wakes()[2 * i] == Wake::FreeAll(v.gates[name].gate));
    assert(v.all_gate_wakes()[2 * i + 1] == Wake::Holder(v.gates[name].gate));
}

/// A closed locker refuses every request, whatever the clock says, and nothing changes.
pub proof fn closed_locker_refuses(
    v: crate::state::LockerView,
    new: crate::state::LockerView,
    name: Seq<char>,
    mode: Mode,
    now: int,
    step: Step,
)
    requires
        v.closed,
        crate::acquire::begins(v, new, name, mode, now, step),
    ensures
        new == v,
        step matches Step::Failed(error) && error.kind == ErrorKind::Canceled,
{
}

/// An acquirer who waits when the locker is closed is woken. Whatever else happened by
/// the time it goes on, it is refused, and nothing is left of its attempt.
pub proof fn closing_ends_the_wait(
    v: crate::state::LockerView,
    users: Multiset<(Seq<char>, Arc<Gate>)>,
    attempt: crate::acquire::AttemptView,
    later: crate::state::LockerView,
    remaining: Multiset<(Seq<char>, Arc<Gate>)>,
    new: crate::state::LockerView,
    now: int,
    step: Step,
)
    requires
        v.wf(),
        accounts_for(v, users),
        users.count((attempt.name, attempt.gate)) > 0,
        later.wf(),
        later.closed,
        accounts_for(later, remaining),
        remaining.count((attempt.name, attempt.gate)) > 0,
        crate::acquire::begins(
            later.left(attempt.name, &*attempt.gate),
            new,
            attempt.name,
            Mode::Wait,
            now,
            step,
        ),
    ensures
        v.all_gate_wakes().contains(Wake::FreeAll(attempt.gate)),
        step matches Step::Failed(error) && error.kind == ErrorKind::Canceled,
        accounts_for(new, remaining.remove((attempt.name, attempt.gate))),
{
    closing_wakes_every_gate(v, attempt.name);
    leaving_is_accounted_for(later, remaining, attempt.name, attempt.gate);
}

/// An attempt that was under way when the locker was closed ends without a guard.
pub proof fn closed_locker_hands_out_nothing(
    v: crate::state::LockerView,
    new: crate::state::LockerView,
    attempt: crate::acquire::AttemptView,
    reply: Result<Option<String>, Error>,
    step: Step,
)
    requires
        v.closed,
        crate::acquire::answered(v, new, attempt, reply, step),
    ensures
        new.closed,
        !(step is Held),
        new.outstanding == v.outstanding,
        new.held == v.held,
{
}

// Acquisitions.

/// An attempt that fails leaves no trace but the numbers it used up.
pub proof fn failed_attempt_leaves_no_trace(
    v: crate::state::LockerView,
    begun: crate::state::LockerView,
    ended: crate::state::LockerView,
    name: Seq<char>,
    mode: Mode,
    now: int,
    first: Step,
    reply: Result<Option<String>, Error>,
    last: Step,
)
    requires
        v.wf(),
        !v.closed ==> v.has_room(),
        crate::acquire::begins(v, begun, name, mode, now, first),
        match first {
            Step::Eval(attempt, _) => crate::acquire::answered(
                begun,
                ended,
                attempt@,
                reply,
                last,
            ) && last is Failed,
            _ => ended == begun,
        },
    ensures
        ended == (crate::state::LockerView { issued: ended.issued, ..v }),
{
    if let Step::Eval(attempt, _) = first {
        crate::state::leaving_undoes_entering(v, name, attempt@.gate);
    }
}

/// An attempt that its acquirer gives up leaves no trace but the number it used up.
pub proof fn abandoned_attempt_leaves_no_trace(
    v: crate::state::LockerView,
    begun: crate::state::LockerView,
    name: Seq<char>,
    mode: Mode,
    now: int,
    attempt: crate::acquire::Attempt,
    call: crate::script::Call,
)
    requires
        v.wf(),
        v.has_room(),
        crate::acquire::begins(v, begun, name, mode, now, Step::Eval(attempt, call)),
    ensures
        begun.left(attempt@.name, &*attempt@.gate) == (crate::state::LockerView {
            issued: begun.issued,
            ..v
        }),
{
    crate::state::leaving_undoes_entering(v, name, attempt@.gate);
}

/// A lock that was acquired and whose guard has ended leaves no trace but the numbers
/// it used up.
pub proof fn ended_guard_leaves_no_trace(
    v: crate::state::LockerView,
    begun: crate::state::LockerView,
    held: crate::state::LockerView,
    name: Seq<char>,
    mode: Mode,
    now: int,
    attempt: crate::acquire::Attempt,
    call: crate::script::Call,
    reply: Result<Option<String>, Error>,
    guard: crate::guard::LockGuard,
    extender: crate::extender::Extender,
)
    requires
        v.wf(),
        v.has_room(),
        begun.has_room(),
        crate::acquire::begins(v, begun, name, mode, now, Step::Eval(attempt, call)),
        crate::acquire::answered(begun, held, attempt@, reply, Step::Held(guard, extender)),
    ensures
        held.live(guard@.cancel.number()),
        held.is_outstanding(guard@.cancel.number()),
        held.released(guard@.cancel.number()).left(guard@.name, &*guard@.gate) == (
        crate::state::LockerView { issued: held.issued, ..v }),
{
    crate::state::entering_keeps_wf(v, name, attempt@.gate);
    crate::state::releasing_undoes_handing_out(begun, guard@.cancel);
    crate::state::leaving_undoes_entering(v, name, attempt@.gate);
    let back = held.released(guard@.cancel.number());
    assert(back == (crate::state::LockerView { issued: held.issued, ..begun }));
    assert(back.left(name, &*attempt@.gate) == (crate::state::LockerView {
        issued: held.issued,
        ..begun.left(name, &*attempt@.gate)
    }));
}

// Extenders.

/// One turn of an extender: what happened, what it did, and the locker's state before
/// and after. Others may change that state between turns.
pub struct Turn {
    pub before: crate::state::LockerView,
    pub event: Event,
    pub action: Action,
    pub after: crate::state::LockerView,
}

/// Whether an event is the outcome of an action.
pub open spec fn comes_of(event: Event, action: Action) -> bool {
    match action {
        Action::Wait(_) => event is Woken,
        Action::Extend(_) => event is Extended,
        Action::Delete(_, _) => event is Deleted,
        Action::Stop => false,
    }
}

/// Whether these are the turns of an extender whose actions were carried out.
pub open spec fn is_run(extender: crate::extender::ExtenderView, turns: Seq<Turn>) -> bool {
    &&& turns.len() > 0 ==> turns[0].event is Woken
    &&& forall|i: int|
        0 <= i < turns.len() ==> (#[trigger] turns[i]).before.wf() && crate::extender::reacts(
            turns[i].before,
            turns[i].after,
            extender,
            turns[i].event,
            turns[i].action,
        )
    &&& forall|i: int, j: int|
        0 <= i && j == i + 1 && j < turns.len() ==> comes_of(
            (#[trigger] turns[j]).event,
            (#[trigger] turns[i]).action,
        )
}

/// An extender extends only a lock that is held, under its own token.
pub proof fn only_held_locks_are_extended(
    extender: crate::extender::ExtenderView,
    turns: Seq<Turn>,
    at: int,
)
    requires
        is_run(extender, turns),
        0 <= at < turns.len(),
        turns[at].action is Extend,
    ensures
        turns[at].before.live(extender.cancel.number()),
        turns[at].action matches Action::Extend(call) && call@.key == extender.key
            && call@.args[0] == extender.token,
{
}

/// An extender's last call deletes the key if it still is its own. By then its lock
/// counts as lost, and nothing follows but the end.
pub proof fn extender_deletes_once(
    extender: crate::extender::ExtenderView,
    turns: Seq<Turn>,
    at: int,
)
    requires
        is_run(extender, turns),
        0 <= at < turns.len(),
        turns[at].action is Delete,
    ensures
        !turns[at].after.live(extender.cancel.number()),
        turns[at].action matches Action::Delete(_, call) && call@ == crate::acquire::del_call(
            turns[at].before.settings,
            extender.key,
            extender.token,
        ),
        at + 1 < turns.len() ==> turns[at + 1].action is Stop && turns.len() == at + 2,
{
    cancelling_happens_once(turns[at].before, extender.cancel);
    if at + 1 < turns.len() {
        assert(comes_of(turns[at + 1].event, turns[at].action));
        if at + 2 < turns.len() {
            assert(comes_of(turns[at + 2].event, turns[at + 1].action));
        }
    }
}

/// An extender stops only after it deleted its key.
pub proof fn extender_stops_after_deleting(
    extender: crate::extender::ExtenderView,
    turns: Seq<Turn>,
    at: int,
)
    requires
        is_run(extender, turns),
        0 <= at < turns.len(),
        turns[at].action is Stop,
    ensures
        at > 0 && turns[at - 1].action is Delete,
{
    if at > 0 {
        assert(comes_of(turns[at].event, turns[at - 1].action));
    }
}

// The server.

/// The Unix time in milliseconds until which an acquisition is good that was made at
/// `now` and that the server ran at `at`.
pub open spec fn lease_deadline(settings: crate::config::SettingsView, now: int, at: int) -> int {
    if settings.fallback_px {
        at + crate::time::whole_millis(settings.validity)
    } else {
        crate::time::unix_millis(now + settings.validity)->0
    }
}

/// The server reads the expiry that an acquisition passes as it was meant.
proof fn lemma_expiry_reads_back(settings: crate::config::SettingsView, now: int)
    ensures
        crate::script::acquire_arg(settings.fallback_px, settings.validity, now) matches Some(arg)
            ==> crate::text::decimal_value(arg) == if settings.fallback_px {
            crate::time::whole_millis(settings.validity) as int
        } else {
            crate::time::unix_millis(now + settings.validity)->0
        },
{
    let millis = crate::time::whole_millis(settings.validity) as int;
    assert(crate::text::signed_decimal(millis) == crate::text::decimal(millis as nat));
    crate::text::decimal_reads_back(millis);
    if let Some(deadline) = crate::time::unix_millis(now + settings.validity) {
        crate::text::decimal_reads_back(deadline);
    }
}

/// The server takes the expiry of an attempt just where it is positive and not out of
/// reach: the validity counts in whole milliseconds where `PXAT` is done without.
pub proof fn positive_expiry_is_accepted(
    v: crate::state::LockerView,
    attempt: crate::acquire::AttemptView,
    now: int,
    at: int,
)
    requires
        v.wf(),
        crate::acquire::attempt_call(v.settings, attempt, now) is Some,
    ensures
        crate::server::accepts(crate::acquire::attempt_call(v.settings, attempt, now)->0, at)
            <==> if v.settings.fallback_px {
            0 < crate::time::whole_millis(v.settings.validity) <= i64::MAX - at
        } else {
            0 < crate::time::unix_millis(now + v.settings.validity)->0
        },
{
    lemma_expiry_reads_back(v.settings, now);
}

/// An expiry that the server does not take changes nothing there, and the attempt ends
/// without a guard: who does not wait is told.
pub proof fn refused_expiry_grants_nothing(
    v: crate::state::LockerView,
    new: crate::state::LockerView,
    store: crate::server::Store,
    attempt: crate::acquire::AttemptView,
    now: int,
    at: int,
    reply: Result<Option<String>, Error>,
    step: Step,
)
    requires
        v.wf(),
        crate::acquire::attempt_call(v.settings, attempt, now) is Some,
        !crate::server::accepts(
            crate::acquire::attempt_call(v.settings, attempt, now)->0,
            at,
        ),
        crate::server::read_as_value(
            crate::server::evaluate(
                store,
                crate::acquire::attempt_call(v.settings, attempt, now)->0,
                at,
            ).1,
            reply,
        ),
        crate::acquire::answered(v, new, attempt, reply, step),
    ensures
        crate::server::evaluate(
            store,
            crate::acquire::attempt_call(v.settings, attempt, now)->0,
            at,
        ).0 == store,
        !(step is Held),
        attempt.mode != Mode::Wait ==> step is Failed,
{
}

/// A lock that someone holds is refused, nothing changes on the server, and who
/// does not wait is told `NotFound`.
pub proof fn held_lock_is_refused(
    v: crate::state::LockerView,
    new: crate::state::LockerView,
    store: crate::server::Store,
    attempt: crate::acquire::AttemptView,
    now: int,
    at: int,
    reply: Result<Option<String>, Error>,
    step: Step,
)
    requires
        v.wf(),
        attempt.mode != Mode::Force,
        crate::acquire::attempt_call(v.settings, attempt, now) is Some,
        crate::server::accepts(
            crate::acquire::attempt_call(v.settings, attempt, now)->0,
            at,
        ),
        crate::server::holder(store, attempt.key, at) is Some,
        crate::server::read_as_value(
            crate::server::evaluate(
                store,
                crate::acquire::attempt_call(v.settings, attempt, now)->0,
                at,
            ).1,
            reply,
        ),
        crate::acquire::answered(v, new, attempt, reply, step),
    ensures
        crate::server::evaluate(
            store,
            crate::acquire::attempt_call(v.settings, attempt, now)->0,
            at,
        ).0 == store,
        attempt.mode == Mode::Try ==> (step matches Step::Failed(error) && error.kind
            == ErrorKind::NotFound),
        attempt.mode == Mode::Wait ==> step is Wait,
{
}

/// A lock that nobody holds, and any lock that is taken over, is granted: the server
/// then holds our token until the deadline, and the acquirer gets a guard
/// unless the locker was closed meanwhile.
pub proof fn free_lock_is_granted(
    v: crate::state::LockerView,
    new: crate::state::LockerView,
    store: crate::server::Store,
    attempt: crate::acquire::AttemptView,
    now: int,
    at: int,
    reply: Result<Option<String>, Error>,
    step: Step,
)
    requires
        v.wf(),
        crate::acquire::attempt_call(v.settings, attempt, now) is Some,
        crate::server::accepts(
            crate::acquire::attempt_call(v.settings, attempt, now)->0,
            at,
        ),
        attempt.mode == Mode::Force || crate::server::holder(store, attempt.key, at) is None,
        crate::server::read_as_value(
            crate::server::evaluate(
                store,
                crate::acquire::attempt_call(v.settings, attempt, now)->0,
                at,
            ).1,
            reply,
        ),
        crate::acquire::answered(v, new, attempt, reply, step),
    ensures
        crate::server::evaluate(
            store,
            crate::acquire::attempt_call(v.settings, attempt, now)->0,
            at,
        ).0 == store.insert(
            attempt.key,
            crate::server::Lease {
                token: attempt.token,
                deadline: lease_deadline(v.settings, now, at),
            },
        ),
        forall|later: int|
            later <= lease_deadline(v.settings, now, at) ==> crate::server::holder(
                crate::server::evaluate(
                    store,
                    crate::acquire::attempt_call(v.settings, attempt, now)->0,
                    at,
                ).0,
                attempt.key,
                later,
            ) == Some(attempt.token),
        if v.closed {
            step is Discard
        } else {
            step is Held
        },
{
    lemma_expiry_reads_back(v.settings, now);
}

/// Extending a held lock to a deadline that is yet to come succeeds and moves its
/// deadline, and the extender goes on.
pub proof fn held_lock_is_extended(
    v: crate::state::LockerView,
    new: crate::state::LockerView,
    store: crate::server::Store,
    extender: crate::extender::ExtenderView,
    now: int,
    at: int,
    reply: Result<i64, Error>,
    action: Action,
)
    requires
        v.wf(),
        crate::extender::extend_call(v.settings, extender, now) is Some,
        at < crate::time::unix_millis(now + v.settings.validity)->0,
        crate::server::holder(store, extender.key, at) == Some(extender.token),
        crate::server::read_as_number(
            crate::server::evaluate(
                store,
                crate::extender::extend_call(v.settings, extender, now)->0,
                at,
            ).1,
            reply,
        ),
        crate::extender::reacts(v, new, extender, Event::Extended(reply), action),
    ensures
        crate::server::evaluate(
            store,
            crate::extender::extend_call(v.settings, extender, now)->0,
            at,
        ).0 == store.insert(
            extender.key,
            crate::server::Lease {
                token: extender.token,
                deadline: crate::time::unix_millis(now + v.settings.validity)->0,
            },
        ),
        forall|later: int|
            later <= crate::time::unix_millis(now + v.settings.validity)->0
                ==> crate::server::holder(
                crate::server::evaluate(
                    store,
                    crate::extender::extend_call(v.settings, extender, now)->0,
                    at,
                ).0,
                extender.key,
                later,
            ) == Some(extender.token),
        new == v,
        action is Wait,
{
    crate::text::decimal_reads_back(crate::time::unix_millis(now + v.settings.validity)->0);
}

/// A lock that expired or that someone else took is not extended, nothing changes on
/// the server, and the holder is told that the lock is lost.
pub proof fn lost_lock_is_noticed(
    v: crate::state::LockerView,
    new: crate::state::LockerView,
    store: crate::server::Store,
    extender: crate::extender::ExtenderView,
    now: int,
    at: int,
    reply: Result<i64, Error>,
    action: Action,
)
    requires
        v.wf(),
        crate::extender::extend_call(v.settings, extender, now) is Some,
        crate::server::holder(store, extender.key, at) != Some(extender.token),
        crate::server::read_as_number(
            crate::server::evaluate(
                store,
                crate::extender::extend_call(v.settings, extender, now)->0,
                at,
            ).1,
            reply,
        ),
        crate::extender::reacts(v, new, extender, Event::Extended(reply), action),
    ensures
        crate::server::evaluate(
            store,
            crate::extender::extend_call(v.settings, extender, now)->0,
            at,
        ).0 == store,
        !new.live(extender.cancel.number()),
        action matches Action::Delete(wakes, _) && wakes@ == v.cancel_wakes(extender.cancel),
{
    cancelling_happens_once(v, extender.cancel);
}

/// Giving a key back frees it if it is ours, and changes nothing if it is not.
pub proof fn only_own_key_is_given_back(
    v: crate::state::LockerView,
    store: crate::server::Store,
    key: Seq<char>,
    token: Seq<char>,
    at: int,
)
    requires
        v.wf(),
    ensures
        ({
            let after = crate::server::evaluate(
                store,
                crate::acquire::del_call(v.settings, key, token),
                at,
            ).0;
            if crate::server::holder(store, key, at) == Some(token) {
                after == store.remove(key) && forall|later: int|
                    crate::server::holder(after, key, later) is None
            } else {
                after == store
            }
        }),
{
}

/// Whether a call writes a token under a key, if the server lets it.
pub open spec fn sets(call: crate::script::CallView, key: Seq<char>) -> bool {
    call.key == key && match call.script {
        Script::AcquireAt | Script::AcquireMs | Script::ForceAt | Script::ForceMs => true,
        Script::Extend | Script::Del => false,
    }
}

/// A key that is free stays so until someone writes a token under it.
pub proof fn free_key_stays_free(
    store: crate::server::Store,
    history: Seq<(crate::script::CallView, int)>,
    key: Seq<char>,
)
    requires
        !store.contains_key(key),
        forall|i: int| 0 <= i < history.len() ==> !sets((#[trigger] history[i]).0, key),
    ensures
        !crate::server::run(store, history).contains_key(key),
    decreases history.len(),
{
    if history.len() > 0 {
        let before = history.drop_last();
        assert forall|i: int| 0 <= i < before.len() implies !sets(
            (#[trigger] before[i]).0,
            key,
        ) by {
            assert(before[i] == history[i]);
        }
        free_key_stays_free(store, before, key);
        assert(!sets(history[history.len() - 1].0, key));
    }
}

/// A token that is not under a key does not come back unless someone writes it there.
pub proof fn displaced_token_stays_away(
    store: crate::server::Store,
    history: Seq<(crate::script::CallView, int)>,
    key: Seq<char>,
    token: Seq<char>,
)
    requires
        store.contains_key(key) ==> store[key].token != token,
        forall|i: int|
            0 <= i < history.len() ==> !(sets((#[trigger] history[i]).0, key)
                && history[i].0.args[0] == token),
    ensures
        ({
            let after = crate::server::run(store, history);
            after.contains_key(key) ==> after[key].token != token
        }),
        forall|at: int|
            crate::server::holder(crate::server::run(store, history), key, at) != Some(token),
    decreases history.len(),
{
    if history.len() > 0 {
        let before = history.drop_last();
        assert forall|i: int| 0 <= i < before.len() implies !(sets(
            (#[trigger] before[i]).0,
            key,
        ) && before[i].0.args[0] == token) by {
            assert(before[i] == history[i]);
        }
        displaced_token_stays_away(store, before, key, token);
        let last = history[history.len() - 1];
        assert(!(sets(last.0, key) && last.0.args[0] == token));
    }
}

/// After a lock was given back by its holder, the next attempt on it is granted, whatever
/// happened to other locks, and whoever extended or gave back this one, in between.
pub proof fn released_lock_is_granted(
    v: crate::state::LockerView,
    new: crate::state::LockerView,
    store: crate::server::Store,
    token: Seq<char>,
    released: int,
    history: Seq<(crate::script::CallView, int)>,
    attempt: crate::acquire::AttemptView,
    now: int,
    at: int,
    reply: Result<Option<String>, Error>,
    step: Step,
)
    requires
        v.wf(),
        !v.closed,
        crate::server::holder(store, attempt.key, released) == Some(token),
        forall|i: int| 0 <= i < history.len() ==> !sets((#[trigger] history[i]).0, attempt.key),
        crate::acquire::attempt_call(v.settings, attempt, now) is Some,
        crate::server::accepts(
            crate::acquire::attempt_call(v.settings, attempt, now)->0,
            at,
        ),
        crate::server::read_as_value(
            crate::server::evaluate(
                crate::server::run(
                    crate::server::evaluate(
                        store,
                        crate::acquire::del_call(v.settings, attempt.key, token),
                        released,
                    ).0,
                    history,
                ),
                crate::acquire::attempt_call(v.settings, attempt, now)->0,
                at,
            ).1,
            reply,
        ),
        crate::acquire::answered(v, new, attempt, reply, step),
    ensures
        step is Held,
{
    only_own_key_is_given_back(v, store, attempt.key, token, released);
    let freed = crate::server::evaluate(
        store,
        crate::acquire::del_call(v.settings, attempt.key, token),
        released,
    ).0;
    free_key_stays_free(freed, history, attempt.key);
    let free = crate::server::run(freed, history);
    free_lock_is_granted(v, new, free, attempt, now, at, reply, step);
}

/// After a lock was taken over, the displaced holder finds out when it next extends,
/// whether a push or the clock made it do so, and whatever happened since short of
/// its own token being written again.
pub proof fn takeover_is_noticed(
    v: crate::state::LockerView,
    new: crate::state::LockerView,
    store: crate::server::Store,
    taker: crate::config::SettingsView,
    attempt: crate::acquire::AttemptView,
    taken: int,
    taken_at: int,
    history: Seq<(crate::script::CallView, int)>,
    extender: crate::extender::ExtenderView,
    now: int,
    at: int,
    reply: Result<i64, Error>,
    action: Action,
)
    requires
        v.wf(),
        taker.scripts == crate::script::scripts_for(taker.fallback_px),
        attempt.mode == Mode::Force,
        attempt.key == extender.key,
        attempt.token != extender.token,
        crate::acquire::attempt_call(taker, attempt, taken) is Some,
        crate::server::accepts(
            crate::acquire::attempt_call(taker, attempt, taken)->0,
            taken_at,
        ),
        forall|i: int|
            0 <= i < history.len() ==> !(sets((#[trigger] history[i]).0, extender.key)
                && history[i].0.args[0] == extender.token),
        crate::extender::extend_call(v.settings, extender, now) is Some,
        crate::server::read_as_number(
            crate::server::evaluate(
                crate::server::run(
                    crate::server::evaluate(
                        store,
                        crate::acquire::attempt_call(taker, attempt, taken)->0,
                        taken_at,
                    ).0,
                    history,
                ),
                crate::extender::extend_call(v.settings, extender, now)->0,
                at,
            ).1,
            reply,
        ),
        crate::extender::reacts(v, new, extender, Event::Extended(reply), action),
    ensures
        !new.live(extender.cancel.number()),
        action matches Action::Delete(wakes, _) && wakes@ == v.cancel_wakes(extender.cancel),
{
    let seized = crate::server::evaluate(
        store,
        crate::acquire::attempt_call(taker, attempt, taken)->0,
        taken_at,
    ).0;
    displaced_token_stays_away(seized, history, extender.key, extender.token);
    let after = crate::server::run(seized, history);
    lost_lock_is_noticed(v, new, after, extender, now, at, reply, action);
}

/// Whether a call leaves the holder of a key alone: it is about another key, asks for the
/// lock and is no takeover, or is made under another token.
pub open spec fn spares(
    call: crate::script::CallView,
    key: Seq<char>,
    token: Seq<char>,
) -> bool {
    call.key != key || match call.script {
        Script::AcquireAt | Script::AcquireMs => true,
        Script::ForceAt | Script::ForceMs => false,
        Script::Extend | Script::Del => call.args[0] != token,
    }
}

/// Whether a call that the server runs at a time is the holder's own extension of a key,
/// to a deadline yet to come.
pub open spec fn extends(
    call: crate::script::CallView,
    key: Seq<char>,
    token: Seq<char>,
    at: int,
) -> bool {
    &&& call.script == Script::Extend
    &&& call.key == key
    &&& call.args[0] == token
    &&& at < crate::text::decimal_value(call.args[1])
}

/// Whether a row of calls keeps a key with the holder of a token: each leaves the
/// holder alone or is its own extension, no later than the deadline in force by then.
pub open spec fn keeps(
    store: crate::server::Store,
    history: Seq<(crate::script::CallView, int)>,
    key: Seq<char>,
    token: Seq<char>,
) -> bool {
    forall|i: int|
        0 <= i < history.len() ==> {
            let (call, at) = #[trigger] history[i];
            &&& at <= crate::server::run(store, history.take(i))[key].deadline
            &&& spares(call, key, token) || extends(call, key, token, at)
        }
}

/// Mutual exclusion: until its deadline, a lock stays with its holder whatever
/// others do, short of a takeover.
pub proof fn lock_stays_with_its_holder(
    store: crate::server::Store,
    history: Seq<(crate::script::CallView, int)>,
    key: Seq<char>,
)
    requires
        store.contains_key(key),
        forall|i: int|
            0 <= i < history.len() ==> spares((#[trigger] history[i]).0, key, store[key].token)
                && history[i].1 <= store[key].deadline,
    ensures
        crate::server::run(store, history).contains_key(key),
        crate::server::run(store, history)[key] == store[key],
        keeps(store, history, key, store[key].token),
        forall|at: int|
            at <= store[key].deadline ==> crate::server::holder(
                crate::server::run(store, history),
                key,
                at,
            ) == Some(store[key].token),
    decreases history.len(),
{
    if history.len() > 0 {
        let before = history.drop_last();
        assert forall|i: int| 0 <= i < before.len() implies spares(
            (#[trigger] before[i]).0,
            key,
            store[key].token,
        ) && before[i].1 <= store[key].deadline by {
            assert(before[i] == history[i]);
        }
        lock_stays_with_its_holder(store, before, key);
        let last = history[history.len() - 1];
        assert(spares(last.0, key, store[key].token));
        assert forall|i: int| 0 <= i < history.len() implies {
            let (call, at) = #[trigger] history[i];
            &&& at <= crate::server::run(store, history.take(i))[key].deadline
            &&& spares(call, key, store[key].token) || extends(call, key, store[key].token, at)
        } by {
            if i < before.len() {
                assert(before[i] == history[i]);
                assert(before.take(i) =~= history.take(i));
            } else {
                assert(history.take(i) =~= before);
            }
        }
    }
}

/// A lock that its holder extends in time stays with the holder, past the deadline it
/// was acquired with, whatever others do short of a takeover.
pub proof fn extended_lock_stays_with_its_holder(
    store: crate::server::Store,
    history: Seq<(crate::script::CallView, int)>,
    key: Seq<char>,
    token: Seq<char>,
)
    requires
        store.contains_key(key),
        store[key].token == token,
        keeps(store, history, key, token),
    ensures
        crate::server::run(store, history).contains_key(key),
        crate::server::run(store, history)[key].token == token,
        forall|at: int|
            at <= crate::server::run(store, history)[key].deadline ==> crate::server::holder(
                crate::server::run(store, history),
                key,
                at,
            ) == Some(token),
    decreases history.len(),
{
    if history.len() > 0 {
        let before = history.drop_last();
        assert forall|i: int| 0 <= i < before.len() implies {
            let (call, at) = #[trigger] before[i];
            &&& at <= crate::server::run(store, before.take(i))[key].deadline
            &&& spares(call, key, token) || extends(call, key, token, at)
        } by {
            assert(before[i] == history[i]);
            assert(before.take(i) =~= history.take(i));
        }
        extended_lock_stays_with_its_holder(store, before, key, token);
        let last = history[history.len() - 1];
        assert(history.take(history.len() - 1) =~= before);
        assert(spares(last.0, key, token) || extends(last.0, key, token, last.1));
    }
}

/// What lockers do leaves the holder of a key alone, short of a takeover: to ask for the
/// lock, and, under other tokens, to extend it and to give it back.
pub proof fn others_spare_the_holder(
    v: crate::state::LockerView,
    attempt: crate::acquire::AttemptView,
    extender: crate::extender::ExtenderView,
    now: int,
    key: Seq<char>,
    token: Seq<char>,
    other: Seq<char>,
)
    requires
        v.wf(),
        extender.token != token,
        other != token,
    ensures
        attempt.mode != Mode::Force ==> (crate::acquire::attempt_call(v.settings, attempt, now)
            matches Some(call) ==> spares(call, key, token)),
        crate::extender::extend_call(v.settings, extender, now) matches Some(call) ==> spares(
            call,
            key,
            token,
        ),
        spares(crate::acquire::del_call(v.settings, key, other), key, token),
{
}

/// What an extender does for its own key counts as its holder's extension, where the
/// deadline is yet to come when the server runs it.
pub proof fn extender_extends_its_own_key(
    v: crate::state::LockerView,
    extender: crate::extender::ExtenderView,
    now: int,
    at: int,
)
    requires
        v.wf(),
        crate::extender::extend_call(v.settings, extender, now) is Some,
        at < crate::time::unix_millis(now + v.settings.validity)->0,
    ensures
        extends(
            crate::extender::extend_call(v.settings, extender, now)->0,
            extender.key,
            extender.token,
            at,
        ),
{
    crate::text::decimal_reads_back(crate::time::unix_millis(now + v.settings.validity)->0);
}

/// Mutual exclusion, as an acquirer sees it: until the deadline of the holder's lease,
/// extended as often as the holder did, every attempt short of a takeover is refused,
/// whatever else happened since.
pub proof fn nobody_else_is_granted(
    v: crate::state::LockerView,
    new: crate::state::LockerView,
    store: crate::server::Store,
    history: Seq<(crate::script::CallView, int)>,
    attempt: crate::acquire::AttemptView,
    now: int,
    at: int,
    reply: Result<Option<String>, Error>,
    step: Step,
)
    requires
        v.wf(),
        store.contains_key(attempt.key),
        keeps(store, history, attempt.key, store[attempt.key].token),
        attempt.mode != Mode::Force,
        at <= crate::server::run(store, history)[attempt.key].deadline,
        crate::acquire::attempt_call(v.settings, attempt, now) is Some,
        crate::server::read_as_value(
            crate::server::evaluate(
                crate::server::run(store, history),
                crate::acquire::attempt_call(v.settings, attempt, now)->0,
                at,
            ).1,
            reply,
        ),
        crate::acquire::answered(v, new, attempt, reply, step),
    ensures
        !(step is Held),
        crate::server::accepts(crate::acquire::attempt_call(v.settings, attempt, now)->0, at) ==> {
            &&& attempt.mode == Mode::Try ==> (step matches Step::Failed(error) && error.kind
                == ErrorKind::NotFound)
            &&& attempt.mode == Mode::Wait ==> step is Wait
        },
{
    extended_lock_stays_with_its_holder(store, history, attempt.key, store[attempt.key].token);
    let after = crate::server::run(store, history);
    if crate::server::accepts(crate::acquire::attempt_call(v.settings, attempt, now)->0, at) {
        held_lock_is_refused(v, new, after, attempt, now, at, reply, step);
    }
}

} // verus!
