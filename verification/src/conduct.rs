//! What the operations do, said of the calls themselves: each law takes a call and what
//! came of it, and says how the outcome relates to what was there before.

use std::sync::Arc;

use vstd::prelude::*;

use crate::acquire::{Attempt, Mode, Step};
use crate::config::{LockerConfig, Settings};
use crate::error::{Error, ErrorKind};
use crate::extender::{Action, Event, Extender, Wakeup};
use crate::gate::{Cancellation, Gate, Wake};
use crate::guard::LockGuard;
use crate::init::{InitStep, Tracking};
use crate::locker::{Closing, Invalidation, Locker, Push};
use crate::script::Script;
use crate::time::Timestamp;

verus! {

// What the laws speak of.

/// The key of a lock, as the server has it.
pub open spec fn lock_key(prefix: Seq<char>, name: Seq<char>) -> Seq<char> {
    prefix.push(':') + name
}

/// How many use a name's gate.
pub open spec fn users_of(v: crate::state::LockerView, name: Seq<char>) -> int {
    if v.gates.contains_key(name) {
        v.gates[name].refs as int
    } else {
        0
    }
}

/// Whether a step left the gates of all other names alone.
pub open spec fn other_gates_alone(
    v: crate::state::LockerView,
    w: crate::state::LockerView,
    name: Seq<char>,
) -> bool {
    forall|n: Seq<char>|
        n != name ==> {
            &&& #[trigger] w.gates.contains_key(n) <==> v.gates.contains_key(n)
            &&& v.gates.contains_key(n) ==> w.gates[n] == v.gates[n]
        }
}

/// Whether a step left everything alone but the gates.
pub open spec fn only_gates(v: crate::state::LockerView, w: crate::state::LockerView) -> bool {
    &&& w.settings == v.settings
    &&& w.outstanding == v.outstanding
    &&& w.held == v.held
    &&& w.closed == v.closed
    &&& w.initialized == v.initialized
}

/// Whether a step left everything alone but the acquisitions.
pub open spec fn only_acquisitions(
    v: crate::state::LockerView,
    w: crate::state::LockerView,
) -> bool {
    &&& w.settings == v.settings
    &&& w.gates == v.gates
    &&& w.closed == v.closed
    &&& w.initialized == v.initialized
}

/// Whether a step brought one more user to a name's gate: the one that is there, or a new
/// one that no other name has.
pub open spec fn gains_user(
    v: crate::state::LockerView,
    w: crate::state::LockerView,
    name: Seq<char>,
    gate: Arc<Gate>,
) -> bool {
    &&& users_of(w, name) == users_of(v, name) + 1
    &&& w.gates[name].gate == gate
    &&& v.gates.contains_key(name) ==> v.gates[name].gate == gate
    &&& forall|n: Seq<char>|
        n != name && v.gates.contains_key(n) ==> (#[trigger] v.gates[n]).gate.number()
            != gate.number()
    &&& other_gates_alone(v, w, name)
    &&& only_gates(v, w)
}

/// Whether a step took one user from a name's gate, which goes with its last user.
pub open spec fn one_user_fewer(
    v: crate::state::LockerView,
    w: crate::state::LockerView,
    name: Seq<char>,
) -> bool {
    &&& users_of(w, name) == users_of(v, name) - 1
    &&& w.gates.contains_key(name) <==> users_of(v, name) > 1
    &&& w.gates.contains_key(name) ==> w.gates[name].gate == v.gates[name].gate
    &&& other_gates_alone(v, w, name)
}

/// Whether a gate is the one of a name.
pub open spec fn is_gate_of(v: crate::state::LockerView, name: Seq<char>, gate: Arc<Gate>) -> bool {
    v.gates.contains_key(name) && v.gates[name].gate.number() == gate.number()
}

/// Whether a step gave up one use of a gate, and did nothing else. Where it is not
/// the one of the name, there is nothing to give up.
pub open spec fn gives_up_gate(
    v: crate::state::LockerView,
    w: crate::state::LockerView,
    name: Seq<char>,
    gate: Arc<Gate>,
) -> bool {
    &&& is_gate_of(v, name, gate) ==> one_user_fewer(v, w, name) && only_gates(v, w)
    &&& !is_gate_of(v, name, gate) ==> w == v
}

/// Whether a signal is one of those that wake everyone: all who wait for a lock that
/// someone here cares about, or its holder.
#[verifier::opaque]
pub open spec fn is_for_all(v: crate::state::LockerView, wake: Wake) -> bool {
    exists|name: Seq<char>| #[trigger]
        v.gates.contains_key(name) && (wake == Wake::FreeAll(v.gates[name].gate) || wake
            == Wake::Holder(v.gates[name].gate))
}

/// Whether these signals wake everyone who waits for any lock and every holder, each once,
/// and nobody else.
pub open spec fn wakes_everyone(v: crate::state::LockerView, wakes: Seq<Wake>) -> bool {
    &&& forall|name: Seq<char>| #[trigger]
        v.gates.contains_key(name) ==> {
            &&& wakes.contains(Wake::FreeAll(v.gates[name].gate))
            &&& wakes.contains(Wake::Holder(v.gates[name].gate))
        }
    &&& forall|i: int| 0 <= i < wakes.len() ==> is_for_all(v, #[trigger] wakes[i])
    &&& wakes.no_duplicates()
}

/// Whether a numeral is the Unix time, in whole milliseconds, at which the validity that
/// starts `now` is over. Numbers of more than 64 bits are cut down.
pub open spec fn is_deadline(numeral: Seq<char>, now: int, validity: nat) -> bool {
    let millis = crate::text::decimal_value(numeral);
    &&& 0 <= now + validity
    &&& ((now + validity) / 1_000_000 - millis) % 0x1_0000_0000_0000_0000 == 0
    &&& -0x8000_0000_0000_0000 <= millis < 0x8000_0000_0000_0000
    &&& now + validity < 0x8000_0000_0000_0000 * 1_000_000 ==> millis * 1_000_000 <= now + validity
        < (millis + 1) * 1_000_000
}

/// Whether a numeral is the validity in whole milliseconds.
pub open spec fn is_duration(numeral: Seq<char>, validity: nat) -> bool {
    let millis = crate::text::decimal_value(numeral);
    millis * 1_000_000 <= validity < (millis + 1) * 1_000_000
}

/// Whether a step asks the server for a lock: under the lock's key, with the attempt's
/// token, for as long as the settings say. The attempt uses the lock's gate. It is
/// refused just where the deadline would be before the epoch.
pub open spec fn asks_for(
    v: crate::state::LockerView,
    w: crate::state::LockerView,
    name: Seq<char>,
    mode: Mode,
    now: int,
    step: Step,
) -> bool {
    match step {
        Step::Eval(attempt, call) => {
            &&& attempt@.mode == mode
            &&& attempt@.name == name
            &&& attempt@.key == lock_key(v.settings.prefix, name)
            &&& call@.key == lock_key(v.settings.prefix, name)
            &&& call@.args.len() == 2
            &&& call@.args[0] == attempt@.token
            &&& v.settings.fallback_px ==> {
                &&& is_duration(call@.args[1], v.settings.validity)
                &&& mode == Mode::Force ==> call@.script == Script::ForceMs
                &&& mode != Mode::Force ==> call@.script == Script::AcquireMs
            }
            &&& !v.settings.fallback_px ==> {
                &&& is_deadline(call@.args[1], now, v.settings.validity)
                &&& mode == Mode::Force ==> call@.script == Script::ForceAt
                &&& mode != Mode::Force ==> call@.script == Script::AcquireAt
            }
            &&& gains_user(v, w, name, attempt@.gate)
        },
        Step::Failed(error) => {
            &&& !v.settings.fallback_px
            &&& now + v.settings.validity < 0
            &&& error.kind == ErrorKind::Unknown
            &&& w.gates == v.gates
            &&& only_gates(v, w)
        },
        _ => false,
    }
}

/// Whether a step refuses a request because the locker is closed: nothing changes.
pub open spec fn refuses_as_closed(
    v: crate::state::LockerView,
    w: crate::state::LockerView,
    step: Step,
) -> bool {
    &&& w == v
    &&& step matches Step::Failed(error)
    &&& error.kind == ErrorKind::Canceled
    &&& error.details@ == "Locker is closed"@
}

/// Whether this is the call that deletes a key if it holds a token.
pub open spec fn deletes(
    call: crate::script::CallView,
    key: Seq<char>,
    token: Seq<char>,
) -> bool {
    call.script == Script::Del && call.key == key && call.args.len() == 1 && call.args[0] == token
}

/// Whether a step told everyone that an acquisition is lost, unless that was done, and
/// no other acquisition is touched.
pub open spec fn tells_of_loss(
    v: crate::state::LockerView,
    w: crate::state::LockerView,
    cancel: Arc<Cancellation>,
    wakes: Seq<Wake>,
) -> bool {
    &&& !w.held.contains(cancel.number())
    &&& forall|n: u64| n != cancel.number() ==> (#[trigger] w.held.contains(n)
        <==> v.held.contains(n))
    &&& v.held.contains(cancel.number()) ==> wakes.len() == 1 && wakes[0] == Wake::Lost(cancel)
    &&& !v.held.contains(cancel.number()) ==> wakes.len() == 0
}

/// Whether a step gave one acquisition back, and left the others where they were.
pub open spec fn gives_back(
    v: crate::state::LockerView,
    w: crate::state::LockerView,
    number: u64,
) -> bool {
    &&& forall|cancel: Arc<Cancellation>| #[trigger]
        w.outstanding.contains(cancel) <==> v.outstanding.contains(cancel) && cancel.number()
            != number
}

/// Whether a signal tells the holder of an acquisition that is not yet lost.
pub open spec fn is_for_holder(v: crate::state::LockerView, wake: Wake) -> bool {
    wake matches Wake::Lost(cancel) && v.outstanding.contains(cancel) && v.held.contains(
        cancel.number(),
    )
}

/// Whether an attempt goes on to wait: as it was, and no longer than the poll interval
/// where no pushes come.
pub open spec fn waits(
    v: crate::state::LockerView,
    w: crate::state::LockerView,
    attempt: crate::acquire::AttemptView,
    step: Step,
) -> bool {
    &&& w == v
    &&& step matches Step::Wait(waiting, limit)
    &&& waiting@ == attempt
    &&& v.settings.no_caching ==> (limit matches Some(limit) && limit@ == v.settings.try_next)
    &&& !v.settings.no_caching ==> limit is None
}

/// Whether an attempt fails, and gives up its gate.
pub open spec fn fails(
    v: crate::state::LockerView,
    w: crate::state::LockerView,
    attempt: crate::acquire::AttemptView,
    kind: ErrorKind,
    details: Seq<char>,
    step: Step,
) -> bool {
    &&& gives_up_gate(v, w, attempt.name, attempt.gate)
    &&& step matches Step::Failed(error)
    &&& error.kind == kind
    &&& error.details@ == details
}

/// Whether an attempt ends in a held lock: the guard and the extender are those of the
/// attempt, and both are told of the loss of the one new acquisition.
pub open spec fn holds(
    v: crate::state::LockerView,
    w: crate::state::LockerView,
    attempt: crate::acquire::AttemptView,
    step: Step,
) -> bool {
    &&& step matches Step::Held(guard, extender)
    &&& guard@.name == attempt.name
    &&& guard@.key == attempt.key
    &&& guard@.token == attempt.token
    &&& guard@.gate == attempt.gate
    &&& extender@.key == attempt.key
    &&& extender@.token == attempt.token
    &&& extender@.gate == attempt.gate
    &&& extender@.cancel == guard@.cancel
    &&& hands_out(v, w, guard@.cancel)
}

/// Whether a step handed out a new acquisition, unlike any before, and nothing else.
pub open spec fn hands_out(
    v: crate::state::LockerView,
    w: crate::state::LockerView,
    cancel: Arc<Cancellation>,
) -> bool {
    &&& !v.held.contains(cancel.number())
    &&& !v.outstanding.contains(cancel)
    &&& forall|i: int|
        0 <= i < v.outstanding.len() ==> (#[trigger] v.outstanding[i]).number() != cancel.number()
    &&& forall|n: u64| #[trigger]
        w.held.contains(n) <==> v.held.contains(n) || n == cancel.number()
    &&& w.outstanding.len() == v.outstanding.len() + 1
    &&& w.outstanding.last() == cancel
    &&& w.outstanding.drop_last() == v.outstanding
    &&& only_acquisitions(v, w)
}

// Lemmas.

proof fn lemma_key(prefix: Seq<char>, name: Seq<char>)
    ensures
        crate::key::key_of(prefix, name) == lock_key(prefix, name),
{
    assert(crate::key::key_of(prefix, name) =~= lock_key(prefix, name));
}

proof fn lemma_deadline(settings: crate::config::SettingsView, now: int)
    ensures
        match crate::script::extend_arg(settings.validity, now) {
            Some(arg) => is_deadline(arg, now, settings.validity),
            None => now + settings.validity < 0,
        },
{
    if let Some(millis) = crate::time::unix_millis(now + settings.validity) {
        crate::text::decimal_reads_back(millis);
    }
}

proof fn lemma_duration(validity: nat)
    ensures
        is_duration(crate::text::decimal(crate::time::whole_millis(validity)), validity),
{
    let millis = crate::time::whole_millis(validity);
    assert(crate::text::signed_decimal(millis as int) == crate::text::decimal(millis));
    crate::text::decimal_reads_back(millis as int);
}

proof fn lemma_begins(
    v: crate::state::LockerView,
    w: crate::state::LockerView,
    name: Seq<char>,
    mode: Mode,
    now: int,
    step: Step,
)
    requires
        v.wf(),
        !v.closed ==> v.has_room(),
        crate::acquire::begins(v, w, name, mode, now, step),
    ensures
        v.closed ==> refuses_as_closed(v, w, step),
        !v.closed ==> asks_for(v, w, name, mode, now, step),
{
    lemma_key(v.settings.prefix, name);
    lemma_deadline(v.settings, now);
    lemma_duration(v.settings.validity);
}

proof fn lemma_left(v: crate::state::LockerView, name: Seq<char>, gate: Arc<Gate>)
    requires
        v.wf(),
    ensures
        gives_up_gate(v, v.left(name, &*gate), name, gate),
{
}

proof fn lemma_filter_no_duplicates<A>(s: Seq<A>, pred: spec_fn(A) -> bool)
    requires
        s.no_duplicates(),
    ensures
        s.filter(pred).no_duplicates(),
    decreases s.len(),
{
    reveal(Seq::filter);
    if s.len() > 0 {
        let rest = s.drop_last();
        lemma_filter_no_duplicates(rest, pred);
        if rest.filter(pred).contains(s.last()) {
            rest.lemma_filter_contains_rev(pred, s.last());
            let i = choose|i: int| 0 <= i < rest.len() && rest[i] == s.last();
            assert(s[i] == s[s.len() - 1]);
        }
        assert forall|i: int| 0 <= i < rest.filter(pred).len() implies rest.filter(pred)[i]
            != s.last() by {
            assert(rest.filter(pred).contains(rest.filter(pred)[i]));
        }
    }
}

proof fn lemma_cancel_all_wakes(v: crate::state::LockerView)
    requires
        v.wf(),
    ensures
        v.cancel_all_wakes().no_duplicates(),
        forall|cancel: Arc<Cancellation>|
            #[trigger] v.outstanding.contains(cancel) && v.held.contains(cancel.number())
                ==> v.cancel_all_wakes().contains(Wake::Lost(cancel)),
        forall|i: int|
            0 <= i < v.cancel_all_wakes().len() ==> is_for_holder(
                v,
                #[trigger] v.cancel_all_wakes()[i],
            ),
{
    let kept = v.outstanding.filter(v.held_ones());
    let wakes = v.cancel_all_wakes();
    assert(v.outstanding.no_duplicates()) by {
        assert forall|i: int, j: int|
            0 <= i < v.outstanding.len() && 0 <= j < v.outstanding.len() && i
                != j implies v.outstanding[i] != v.outstanding[j] by {
            if i < j {
                assert(v.outstanding[i].number() != v.outstanding[j].number());
            } else {
                assert(v.outstanding[j].number() != v.outstanding[i].number());
            }
        }
    }
    lemma_filter_no_duplicates(v.outstanding, v.held_ones());
    assert forall|i: int, j: int| 0 <= i < wakes.len() && 0 <= j < wakes.len() && i
        != j implies wakes[i] != wakes[j] by {
        assert(kept[i] != kept[j]);
    }
    assert forall|cancel: Arc<Cancellation>|
        #[trigger] v.outstanding.contains(cancel) && v.held.contains(
            cancel.number(),
        ) implies wakes.contains(Wake::Lost(cancel)) by {
        crate::laws::closing_cancels_everything(v, cancel);
    }
    assert forall|i: int| 0 <= i < wakes.len() implies is_for_holder(v, #[trigger] wakes[i]) by {
        v.outstanding.lemma_filter_pred(v.held_ones(), i);
        assert(kept.contains(kept[i]));
        v.outstanding.lemma_filter_contains_rev(v.held_ones(), kept[i]);
    }
}

proof fn lemma_gate_wake(v: crate::state::LockerView, i: int)
    requires
        v.wf(),
        0 <= i < v.all_gate_wakes().len(),
    ensures
        v.gates.contains_key(v.names[i / 2]),
        is_for_all(v, v.all_gate_wakes()[i]),
{
    reveal(is_for_all);
    assert(v.names.contains(v.names[i / 2]));
    assert(v.gates.contains_key(v.names[i / 2]));
}

proof fn lemma_for_all_is_no_loss(v: crate::state::LockerView, wake: Wake)
    requires
        is_for_all(v, wake),
    ensures
        !(wake is Lost),
{
    reveal(is_for_all);
}

proof fn lemma_gate_wakes_differ(v: crate::state::LockerView, i: int, j: int)
    requires
        v.wf(),
        0 <= i < j < v.all_gate_wakes().len(),
    ensures
        v.all_gate_wakes()[i] != v.all_gate_wakes()[j],
{
    let a = v.names[i / 2];
    let b = v.names[j / 2];
    lemma_gate_wake(v, i);
    lemma_gate_wake(v, j);
    if i % 2 == j % 2 {
        assert(i / 2 != j / 2);
        assert(a != b);
        assert(v.gates[a].gate.number() != v.gates[b].gate.number());
    }
}

proof fn lemma_all_gate_wakes(v: crate::state::LockerView)
    requires
        v.wf(),
    ensures
        wakes_everyone(v, v.all_gate_wakes()),
{
    let wakes = v.all_gate_wakes();
    assert forall|name: Seq<char>| #[trigger] v.gates.contains_key(name) implies wakes.contains(
        Wake::FreeAll(v.gates[name].gate),
    ) && wakes.contains(Wake::Holder(v.gates[name].gate)) by {
        crate::laws::closing_wakes_every_gate(v, name);
    }
    assert forall|i: int| 0 <= i < wakes.len() implies is_for_all(v, #[trigger] wakes[i]) by {
        lemma_gate_wake(v, i);
    }
    assert(wakes.no_duplicates()) by {
        assert forall|i: int, j: int| 0 <= i < wakes.len() && 0 <= j < wakes.len() && i
            != j implies wakes[i] != wakes[j] by {
            if i < j {
                lemma_gate_wakes_differ(v, i, j);
            } else {
                lemma_gate_wakes_differ(v, j, i);
            }
        }
    }
}

/// Whether these are the signals of closing a locker: they tell every holder who was not
/// told and wake everyone, each once, and nobody else.
pub open spec fn tells_of_closing(v: crate::state::LockerView, wakes: Seq<Wake>) -> bool {
    &&& forall|cancel: Arc<Cancellation>| #[trigger]
        v.outstanding.contains(cancel) && v.held.contains(cancel.number()) ==> wakes.contains(
            Wake::Lost(cancel),
        )
    &&& forall|name: Seq<char>| #[trigger]
        v.gates.contains_key(name) ==> {
            &&& wakes.contains(Wake::FreeAll(v.gates[name].gate))
            &&& wakes.contains(Wake::Holder(v.gates[name].gate))
        }
    &&& forall|i: int|
        0 <= i < wakes.len() ==> is_for_holder(v, #[trigger] wakes[i]) || is_for_all(v, wakes[i])
    &&& wakes.no_duplicates()
}

proof fn lemma_appended<A>(a: Seq<A>, b: Seq<A>, item: A)
    ensures
        a.contains(item) ==> (a + b).contains(item),
        b.contains(item) ==> (a + b).contains(item),
{
    if a.contains(item) {
        let i = choose|i: int| 0 <= i < a.len() && a[i] == item;
        assert((a + b)[i] == item);
    }
    if b.contains(item) {
        let i = choose|i: int| 0 <= i < b.len() && b[i] == item;
        assert((a + b)[a.len() + i] == item);
    }
}

proof fn lemma_no_duplicates_appended<A>(a: Seq<A>, b: Seq<A>)
    requires
        a.no_duplicates(),
        b.no_duplicates(),
        forall|i: int, j: int|
            0 <= i < a.len() && 0 <= j < b.len() ==> #[trigger] a[i] != #[trigger] b[j],
    ensures
        (a + b).no_duplicates(),
{
    let all = a + b;
    assert forall|i: int, j: int| 0 <= i < j < all.len() implies all[i] != all[j] by {
        if i < a.len() && j >= a.len() {
            assert(a[i] != b[j - a.len()]);
        } else if i >= a.len() {
            assert(b[i - a.len()] != b[j - a.len()]);
        }
    }
}

proof fn lemma_closing_wakes(v: crate::state::LockerView, lost: Seq<Wake>, all: Seq<Wake>)
    requires
        wakes_everyone(v, all),
        lost.no_duplicates(),
        forall|cancel: Arc<Cancellation>| #[trigger]
            v.outstanding.contains(cancel) && v.held.contains(cancel.number()) ==> lost.contains(
                Wake::Lost(cancel),
            ),
        forall|i: int| 0 <= i < lost.len() ==> is_for_holder(v, #[trigger] lost[i]),
    ensures
        tells_of_closing(v, lost + all),
{
    let wakes = lost + all;
    assert forall|cancel: Arc<Cancellation>| #[trigger]
        v.outstanding.contains(cancel) && v.held.contains(
            cancel.number(),
        ) implies wakes.contains(Wake::Lost(cancel)) by {
        lemma_appended(lost, all, Wake::Lost(cancel));
    }
    assert forall|name: Seq<char>| #[trigger] v.gates.contains_key(name) implies wakes.contains(
        Wake::FreeAll(v.gates[name].gate),
    ) && wakes.contains(Wake::Holder(v.gates[name].gate)) by {
        lemma_appended(lost, all, Wake::FreeAll(v.gates[name].gate));
        lemma_appended(lost, all, Wake::Holder(v.gates[name].gate));
    }
    assert forall|i: int| 0 <= i < wakes.len() implies is_for_holder(v, #[trigger] wakes[i])
        || is_for_all(v, wakes[i]) by {
        if i < lost.len() {
            assert(is_for_holder(v, lost[i]));
        } else {
            assert(is_for_all(v, all[i - lost.len()]));
        }
    }
    assert forall|i: int, j: int| 0 <= i < lost.len() && 0 <= j < all.len() implies
        #[trigger] lost[i] != #[trigger] all[j] by {
        assert(is_for_holder(v, lost[i]));
        lemma_for_all_is_no_loss(v, all[j]);
    }
    lemma_no_duplicates_appended(lost, all);
}

proof fn lemma_deregistered(v: crate::state::LockerView, number: u64)
    ensures
        gives_back(v, v.deregistered(number), number),
{
    let pred = crate::state::others(number);
    let w = v.deregistered(number);
    assert forall|cancel: Arc<Cancellation>| #[trigger]
        w.outstanding.contains(cancel) <==> v.outstanding.contains(cancel) && cancel.number()
            != number by {
        if w.outstanding.contains(cancel) {
            let i = choose|i: int| 0 <= i < w.outstanding.len() && w.outstanding[i] == cancel;
            v.outstanding.lemma_filter_pred(pred, i);
            v.outstanding.lemma_filter_contains_rev(pred, cancel);
        }
        if v.outstanding.contains(cancel) && cancel.number() != number {
            let i = choose|i: int| 0 <= i < v.outstanding.len() && v.outstanding[i] == cancel;
            v.outstanding.lemma_filter_contains(pred, i);
        }
    }
}

proof fn lemma_keys_wakes_append(
    v: crate::state::LockerView,
    a: Seq<Vec<u8>>,
    b: Seq<Vec<u8>>,
)
    ensures
        v.keys_wakes(a + b) == v.keys_wakes(a) + v.keys_wakes(b),
    decreases b.len(),
{
    if b.len() == 0 {
        assert(a + b =~= a);
        assert(v.keys_wakes(a) + v.keys_wakes(b) =~= v.keys_wakes(a));
    } else {
        lemma_keys_wakes_append(v, a, b.drop_last());
        assert((a + b).drop_last() =~= a + b.drop_last());
        assert((a + b).last() == b.last());
        assert(v.keys_wakes(a + b) =~= v.keys_wakes(a) + v.keys_wakes(b));
    }
}

proof fn lemma_one_key(v: crate::state::LockerView, key: Seq<u8>)
    ensures
        forall|name: Seq<char>|
            v.gates.contains_key(name) && key == #[trigger] vstd::utf8::encode_utf8(
                lock_key(v.settings.prefix, name),
            ) ==> v.key_wakes(key) == seq![
                Wake::Free(v.gates[name].gate),
                Wake::Holder(v.gates[name].gate),
            ],
        (forall|name: Seq<char>|
            v.gates.contains_key(name) ==> key != #[trigger] vstd::utf8::encode_utf8(
                lock_key(v.settings.prefix, name),
            )) ==> v.key_wakes(key) == Seq::<Wake>::empty(),
{
    assert forall|name: Seq<char>|
        v.gates.contains_key(name) && key == #[trigger] vstd::utf8::encode_utf8(
            lock_key(v.settings.prefix, name),
        ) implies v.key_wakes(key) == seq![
        Wake::Free(v.gates[name].gate),
        Wake::Holder(v.gates[name].gate),
    ] by {
        lemma_key(v.settings.prefix, name);
        crate::laws::own_key_wakes_its_gate(v, name);
    }
    if forall|name: Seq<char>|
        v.gates.contains_key(name) ==> key != #[trigger] vstd::utf8::encode_utf8(
            lock_key(v.settings.prefix, name),
        ) {
        assert forall|name: Seq<char>| v.gates.contains_key(name) implies key
            != vstd::utf8::encode_utf8(
            #[trigger] crate::key::key_of(v.settings.prefix, name),
        ) by {
            lemma_key(v.settings.prefix, name);
        }
        crate::laws::foreign_key_wakes_nobody(v, key);
    }
}

proof fn lemma_keys_wakes_contains(
    v: crate::state::LockerView,
    keys: Seq<Vec<u8>>,
    i: int,
    wake: Wake,
)
    requires
        0 <= i < keys.len(),
        v.key_wakes(keys[i]@).contains(wake),
    ensures
        v.keys_wakes(keys).contains(wake),
    decreases keys.len(),
{
    let init = v.keys_wakes(keys.drop_last());
    let tail = v.key_wakes(keys.last()@);
    if i == keys.len() - 1 {
        let j = choose|j: int| 0 <= j < tail.len() && tail[j] == wake;
        assert(v.keys_wakes(keys)[init.len() + j] == wake);
    } else {
        lemma_keys_wakes_contains(v, keys.drop_last(), i, wake);
        let j = choose|j: int| 0 <= j < init.len() && init[j] == wake;
        assert(v.keys_wakes(keys)[j] == wake);
    }
}

/// Whether a signal is one for the lock that a key belongs to.
pub open spec fn is_for_key(v: crate::state::LockerView, key: Seq<u8>, wake: Wake) -> bool {
    exists|name: Seq<char>|
        v.gates.contains_key(name) && key == #[trigger] vstd::utf8::encode_utf8(
            lock_key(v.settings.prefix, name),
        ) && (wake == Wake::Free(v.gates[name].gate) || wake == Wake::Holder(v.gates[name].gate))
}

proof fn lemma_keys_wakes_only(v: crate::state::LockerView, keys: Seq<Vec<u8>>, at: int)
    requires
        0 <= at < v.keys_wakes(keys).len(),
    ensures
        exists|i: int|
            0 <= i < keys.len() && #[trigger] is_for_key(v, keys[i]@, v.keys_wakes(keys)[at]),
    decreases keys.len(),
{
    let init = v.keys_wakes(keys.drop_last());
    let wake = v.keys_wakes(keys)[at];
    if at < init.len() {
        lemma_keys_wakes_only(v, keys.drop_last(), at);
        let i = choose|i: int|
            0 <= i < keys.drop_last().len() && #[trigger] is_for_key(
                v,
                keys.drop_last()[i]@,
                init[at],
            );
        assert(is_for_key(v, keys[i]@, wake));
    } else {
        let last = keys.len() - 1;
        let key = keys[last]@;
        lemma_one_key(v, key);
        assert(exists|name: Seq<char>|
            v.gates.contains_key(name) && key == #[trigger] vstd::utf8::encode_utf8(
                lock_key(v.settings.prefix, name),
            ));
        let name = choose|name: Seq<char>|
            v.gates.contains_key(name) && key == #[trigger] vstd::utf8::encode_utf8(
                lock_key(v.settings.prefix, name),
            );
        assert(v.key_wakes(key)[at - init.len()] == wake);
        assert(is_for_key(v, keys[last]@, wake));
    }
}

// Lockers.

/// A new locker works with the knobs and the client it was given, and has nothing to do.
pub proof fn new_locker_is_open_and_idle<C>(
    config: LockerConfig,
    client: C,
    locker: Locker<C>,
    settings: Settings,
    shown: &C,
)
    requires
        call_ensures(Locker::<C>::from_client, (config, client), locker),
        call_ensures(LockerConfig::into_settings, (config,), settings),
        call_ensures(Locker::<C>::client, (&locker,), shown),
    ensures
        *shown == client,
        locker@.settings == settings@,
        locker@.gates == Map::<Seq<char>, crate::state::Slot>::empty(),
        locker@.outstanding.len() == 0,
        forall|n: u64| !(#[trigger] locker@.held.contains(n)),
        !locker@.closed,
        !locker@.initialized,
        locker@.wf(),
{
}

/// A locker says what it is.
pub proof fn locker_says_what_it_is<C>(
    locker: &Locker<C>,
    settings: &Settings,
    closed: bool,
    initialized: bool,
    room: bool,
    client: &C,
)
    requires
        call_ensures(Locker::<C>::settings, (locker,), settings),
        call_ensures(Locker::<C>::is_closed, (locker,), closed),
        call_ensures(Locker::<C>::is_initialized, (locker,), initialized),
        call_ensures(Locker::<C>::has_room, (locker,), room),
        call_ensures(Locker::<C>::client, (locker,), client),
    ensures
        settings@ == locker@.settings,
        closed == locker@.closed,
        initialized == locker@.initialized,
        room <==> locker@.issued < u64::MAX,
        *client == locker.connection(),
{
}

// Gates.

/// Everyone who cares about a name uses the same gate, and no two names share one. A
/// closed locker lets nobody in.
pub proof fn name_has_one_gate<C>(locker: &mut Locker<C>, name: &str, gate: Option<Arc<Gate>>)
    requires
        call_ensures(Locker::<C>::get_or_create_gate, (locker, name), gate),
        old(locker)@.wf(),
        !old(locker)@.closed ==> old(locker)@.has_room(),
    ensures
        final(locker)@.wf(),
        final(locker).connection() == old(locker).connection(),
        gate is Some <==> !old(locker)@.closed,
        gate is None ==> final(locker)@ == old(locker)@,
        gate matches Some(gate) ==> gains_user(old(locker)@, final(locker)@, name@, gate),
{
}

/// Whoever leaves a gate counts no more, and the last one takes it along. Only the name's
/// own gate is left.
pub proof fn last_user_takes_the_gate_along<C>(locker: &mut Locker<C>, name: &str, gate: Arc<Gate>)
    requires
        call_ensures(Locker::<C>::drop_gate, (locker, name, &*gate), ()),
        old(locker)@.wf(),
    ensures
        final(locker)@.wf(),
        final(locker).connection() == old(locker).connection(),
        gives_up_gate(old(locker)@, final(locker)@, name@, gate),
{
    lemma_left(old(locker)@, name@, gate);
}

/// A lock that may be free wakes one who waits for it, and its holder. A name that nobody
/// cares about wakes nobody.
pub proof fn one_waiter_and_the_holder_are_woken<C>(
    locker: &Locker<C>,
    name: &str,
    wakes: Vec<Wake>,
)
    requires
        call_ensures(Locker::<C>::notify_gate, (locker, name), wakes),
    ensures
        locker@.gates.contains_key(name@) ==> {
            &&& wakes@.len() == 2
            &&& wakes@[0] == Wake::Free(locker@.gates[name@].gate)
            &&& wakes@[1] == Wake::Holder(locker@.gates[name@].gate)
        },
        !locker@.gates.contains_key(name@) ==> wakes@.len() == 0,
{
}

// Pushes.

/// When anything may have changed, everyone is woken: on demand, when messages were
/// dropped, when the server forgot what it tracked, and after a reconnect whatever came
/// of it.
pub proof fn everyone_is_woken_when_in_doubt<C>(
    locker: &Locker<C>,
    all: Vec<Wake>,
    lagged: Option<Vec<Wake>>,
    flush: Invalidation,
    flushed: Option<Vec<Wake>>,
    armed: Result<(), Error>,
    reconnected: Vec<Wake>,
)
    requires
        locker@.wf(),
        flush.keys@.len() == 0,
        call_ensures(Locker::<C>::wake_all_gates, (locker,), all),
        call_ensures(Locker::<C>::pushed, (locker, &Push::Lagged), lagged),
        call_ensures(Locker::<C>::pushed, (locker, &Push::Received(flush)), flushed),
        call_ensures(Locker::<C>::rearmed, (locker, &armed), reconnected),
    ensures
        wakes_everyone(locker@, all@),
        lagged matches Some(wakes) && wakes_everyone(locker@, wakes@),
        flushed matches Some(wakes) && wakes_everyone(locker@, wakes@),
        wakes_everyone(locker@, reconnected@),
{
    lemma_all_gate_wakes(locker@);
}

/// A message hands on its keys, and the end of the channel ends the listening.
pub proof fn messages_are_dispatched<C>(
    locker: &Locker<C>,
    push: Invalidation,
    dispatched: Vec<Wake>,
    pushed: Option<Vec<Wake>>,
    ended: Option<Vec<Wake>>,
)
    requires
        call_ensures(Locker::<C>::dispatch, (locker, &push), dispatched),
        call_ensures(Locker::<C>::pushed, (locker, &Push::Received(push)), pushed),
        call_ensures(Locker::<C>::pushed, (locker, &Push::Closed), ended),
    ensures
        pushed matches Some(wakes) && wakes@ == dispatched@,
        ended is None,
{
}

/// Every key of a push wakes a waiter and the holder of its lock, wherever in the push it
/// stands.
pub proof fn every_key_of_a_push_is_dispatched<C>(
    locker: &Locker<C>,
    push: &Invalidation,
    wakes: Vec<Wake>,
    i: int,
    name: Seq<char>,
)
    requires
        call_ensures(Locker::<C>::dispatch, (locker, push), wakes),
        0 <= i < push.keys@.len(),
        locker@.gates.contains_key(name),
        push.keys@[i]@ == vstd::utf8::encode_utf8(lock_key(locker@.settings.prefix, name)),
    ensures
        wakes@.contains(Wake::Free(locker@.gates[name].gate)),
        wakes@.contains(Wake::Holder(locker@.gates[name].gate)),
{
    let gate = locker@.gates[name].gate;
    let key = push.keys@[i]@;
    lemma_one_key(locker@, key);
    assert(locker@.key_wakes(key)[0] == Wake::Free(gate));
    assert(locker@.key_wakes(key)[1] == Wake::Holder(gate));
    lemma_keys_wakes_contains(locker@, push.keys@, i, Wake::Free(gate));
    lemma_keys_wakes_contains(locker@, push.keys@, i, Wake::Holder(gate));
}

/// A push that names keys wakes nobody but those who care about a lock it names.
pub proof fn only_keys_of_a_push_are_dispatched<C>(
    locker: &Locker<C>,
    push: &Invalidation,
    wakes: Vec<Wake>,
    at: int,
)
    requires
        call_ensures(Locker::<C>::dispatch, (locker, push), wakes),
        push.keys@.len() > 0,
        0 <= at < wakes@.len(),
    ensures
        exists|i: int|
            0 <= i < push.keys@.len() && #[trigger] is_for_key(
                locker@,
                push.keys@[i]@,
                wakes@[at],
            ),
{
    lemma_keys_wakes_only(locker@, push.keys@, at);
}

/// A push of one key wakes one waiter and the holder of its lock, once, and a key that
/// is nobody's wakes nobody.
pub proof fn one_key_wakes_once<C>(
    locker: &Locker<C>,
    push: &Invalidation,
    wakes: Vec<Wake>,
    name: Seq<char>,
)
    requires
        call_ensures(Locker::<C>::dispatch, (locker, push), wakes),
        push.keys@.len() == 1,
    ensures
        locker@.gates.contains_key(name) && push.keys@[0]@ == vstd::utf8::encode_utf8(
            lock_key(locker@.settings.prefix, name),
        ) ==> wakes@ == seq![
            Wake::Free(locker@.gates[name].gate),
            Wake::Holder(locker@.gates[name].gate),
        ],
        (forall|n: Seq<char>|
            locker@.gates.contains_key(n) ==> push.keys@[0]@ != #[trigger] vstd::utf8::encode_utf8(
                lock_key(locker@.settings.prefix, n),
            )) ==> wakes@.len() == 0,
{
    lemma_one_key(locker@, push.keys@[0]@);
    reveal_with_fuel(crate::state::LockerView::keys_wakes, 2);
    assert(locker@.keys_wakes(push.keys@) =~= locker@.key_wakes(push.keys@[0]@));
}

/// Two pushes and one that names the keys of both, in order, come to the same signals.
pub proof fn pushes_add_up<C>(
    locker: &Locker<C>,
    first: &Invalidation,
    second: &Invalidation,
    both: &Invalidation,
    first_wakes: Vec<Wake>,
    second_wakes: Vec<Wake>,
    wakes: Vec<Wake>,
)
    requires
        call_ensures(Locker::<C>::dispatch, (locker, first), first_wakes),
        call_ensures(Locker::<C>::dispatch, (locker, second), second_wakes),
        call_ensures(Locker::<C>::dispatch, (locker, both), wakes),
        first.keys@.len() > 0,
        second.keys@.len() > 0,
        both.keys@ == first.keys@ + second.keys@,
    ensures
        wakes@ == first_wakes@ + second_wakes@,
{
    lemma_keys_wakes_append(locker@, first.keys@, second.keys@);
}

// Acquisitions that were handed out.

/// A new acquisition is held and outstanding. A closed locker hands out none.
pub proof fn new_acquisition_is_held<C>(
    locker: &mut Locker<C>,
    cancel: Option<Arc<Cancellation>>,
)
    requires
        call_ensures(Locker::<C>::register_outstanding, (locker,), cancel),
        old(locker)@.wf(),
        !old(locker)@.closed ==> old(locker)@.has_room(),
    ensures
        final(locker)@.wf(),
        final(locker).connection() == old(locker).connection(),
        cancel is Some <==> !old(locker)@.closed,
        cancel is None ==> final(locker)@ == old(locker)@,
        cancel matches Some(cancel) ==> hands_out(old(locker)@, final(locker)@, cancel),
{
    if let Some(cancel) = cancel {
        let v = old(locker)@;
        assert forall|i: int| 0 <= i < v.outstanding.len() implies (
        #[trigger] v.outstanding[i]).number() != cancel.number() by {}
        assert(!v.held.contains(cancel.number()));
        assert(v.registered(cancel).outstanding.drop_last() =~= v.outstanding);
        if v.outstanding.contains(cancel) {
            let i = choose|i: int| 0 <= i < v.outstanding.len() && v.outstanding[i] == cancel;
            assert(v.outstanding[i].number() == cancel.number());
        }
    }
}

/// Giving an acquisition back takes it off the list, and says nothing of its loss.
pub proof fn giving_back_takes_off_the_list<C>(locker: &mut Locker<C>, cancel: &Cancellation)
    requires
        call_ensures(Locker::<C>::deregister_outstanding, (locker, cancel), ()),
        old(locker)@.wf(),
    ensures
        final(locker)@.wf(),
        final(locker).connection() == old(locker).connection(),
        gives_back(old(locker)@, final(locker)@, cancel.number()),
        final(locker)@.held == old(locker)@.held,
        only_acquisitions(old(locker)@, final(locker)@),
{
    lemma_deregistered(old(locker)@, cancel.number());
}

/// Cancelling an acquisition tells everyone, the first time only, and does nothing else.
pub proof fn cancelling_tells_everyone_once<C>(
    locker: &mut Locker<C>,
    cancel: Arc<Cancellation>,
    wakes: Vec<Wake>,
)
    requires
        call_ensures(Locker::<C>::cancel, (locker, &cancel), wakes),
        old(locker)@.wf(),
    ensures
        final(locker)@.wf(),
        final(locker).connection() == old(locker).connection(),
        tells_of_loss(old(locker)@, final(locker)@, cancel, wakes@),
        final(locker)@.outstanding == old(locker)@.outstanding,
        only_acquisitions(old(locker)@, final(locker)@),
{
}

/// Whoever asks learns whether an acquisition was cancelled, and has something to wait for
/// just as long as it was not.
pub proof fn loss_shows<C>(
    locker: &Locker<C>,
    cancel: &Cancellation,
    cancelled: bool,
    guard: &LockGuard,
    lost: bool,
    awaited: Option<Arc<Cancellation>>,
)
    requires
        call_ensures(Locker::<C>::is_cancelled, (locker, cancel), cancelled),
        call_ensures(LockGuard::is_lost::<C>, (guard, locker), lost),
        call_ensures(LockGuard::cancelled::<C>, (guard, locker), awaited),
    ensures
        cancelled <==> !locker@.held.contains(cancel.number()),
        lost <==> !locker@.held.contains(guard@.cancel.number()),
        awaited is None <==> lost,
        awaited matches Some(awaited) ==> awaited == guard@.cancel,
{
}

// Closing.

/// Closing a locker, once, cancels whatever was not given back and tells its holder, wakes
/// everyone, gives each signal once, and turns off the tracking that was on. The gates stay
/// with those who use them.
pub proof fn closing_tells_everyone<C>(locker: &mut Locker<C>, closing: Option<Closing>)
    requires
        call_ensures(Locker::<C>::close, (locker,), closing),
        old(locker)@.wf(),
    ensures
        final(locker)@.wf(),
        final(locker)@.closed,
        final(locker).connection() == old(locker).connection(),
        closing is Some <==> !old(locker)@.closed,
        closing is None ==> final(locker)@ == old(locker)@,
        closing matches Some(closing) ==> {
            let v = old(locker)@;
            let w = final(locker)@;
            &&& w.outstanding.len() == 0
            &&& forall|cancel: Arc<Cancellation>| #[trigger]
                v.outstanding.contains(cancel) ==> !w.held.contains(cancel.number())
            &&& forall|n: u64|
                (forall|i: int| 0 <= i < v.outstanding.len() ==> v.outstanding[i].number() != n)
                    ==> (#[trigger] w.held.contains(n) <==> v.held.contains(n))
            &&& w.settings == v.settings && w.gates == v.gates && w.initialized == v.initialized
            &&& closing.stop_tracking <==> !v.settings.no_caching
        },
        closing matches Some(closing) ==> tells_of_closing(old(locker)@, closing.wakes@),
{
    let v = old(locker)@;
    lemma_cancel_all_wakes(v);
    lemma_all_gate_wakes(v);
    lemma_closing_wakes(v, v.cancel_all_wakes(), v.all_gate_wakes());
    assert forall|cancel: Arc<Cancellation>| #[trigger]
        v.outstanding.contains(cancel) implies !v.shut().held.contains(cancel.number()) by {
        crate::laws::closing_cancels_everything(v, cancel);
    }
}

// Getting ready.

/// A locker that is ready has nothing to do, one without a connected client is told so,
/// and any other loads all its scripts and asks for tracking of what it reads, unless
/// tracking is off.
pub proof fn getting_ready_loads_and_tracks<C>(
    locker: &Locker<C>,
    connected: bool,
    step: InitStep,
    again: Tracking,
)
    requires
        call_ensures(Locker::<C>::init, (locker, connected), step),
        call_ensures(Locker::<C>::tracking, (locker,), again),
    ensures
        step is Ready <==> locker@.initialized,
        step is Failed <==> !locker@.initialized && !connected,
        step matches InitStep::Failed(error) ==> error.kind == ErrorKind::Config,
        step matches InitStep::Load(scripts, tracking) ==> {
            &&& scripts@.contains(locker@.settings.scripts.acquire)
            &&& scripts@.contains(locker@.settings.scripts.force)
            &&& scripts@.contains(locker@.settings.scripts.extend)
            &&& scripts@.contains(locker@.settings.scripts.del)
            &&& scripts@.len() == 4
            &&& tracking is None <==> locker@.settings.no_caching
            &&& tracking matches Some(tracking) ==> tracking == again
        },
        again.optout && !again.optin && !again.bcast,
        again.noloop == locker@.settings.no_loop,
{
    if let InitStep::Load(scripts, _) = step {
        assert(scripts@[0] == locker@.settings.scripts.acquire);
        assert(scripts@[1] == locker@.settings.scripts.force);
        assert(scripts@[2] == locker@.settings.scripts.extend);
        assert(scripts@[3] == locker@.settings.scripts.del);
    }
}

/// A locker is ready once tracking was armed, or was not asked for. A failure is handed on
/// and leaves everything as it was, so that it can be tried again.
pub proof fn failure_to_get_ready_can_be_mended<C>(
    locker: &mut Locker<C>,
    armed: Result<(), Error>,
    listen: Result<bool, Error>,
)
    requires
        call_ensures(Locker::<C>::initialize, (locker, armed), listen),
        old(locker)@.wf(),
    ensures
        final(locker)@.wf(),
        final(locker).connection() == old(locker).connection(),
        armed is Ok <==> listen is Ok,
        armed matches Err(error) ==> listen == Err::<bool, Error>(error) && final(locker)@ == old(
            locker,
        )@,
        listen matches Ok(listen) ==> {
            let v = old(locker)@;
            let w = final(locker)@;
            &&& w.initialized
            &&& listen <==> !v.settings.no_caching
            &&& w.settings == v.settings && w.gates == v.gates && w.outstanding == v.outstanding
            &&& w.held == v.held && w.closed == v.closed
        },
{
}

// Acquiring.

/// A request asks the server for the lock of that name, in its own mode, and under a fresh
/// token. A closed locker refuses it.
pub proof fn requests_ask_the_server<C>(
    waiting: &mut Locker<C>,
    trying: &mut Locker<C>,
    forcing: &mut Locker<C>,
    name: &str,
    now: Timestamp,
    wait: Step,
    try_step: Step,
    force: Step,
)
    requires
        call_ensures(Locker::<C>::acquire, (waiting, name, now), wait),
        old(waiting)@.wf(),
        !old(waiting)@.closed ==> old(waiting)@.has_room(),
        call_ensures(Locker::<C>::try_acquire, (trying, name, now), try_step),
        old(trying)@.wf(),
        !old(trying)@.closed ==> old(trying)@.has_room(),
        call_ensures(Locker::<C>::acquire_force, (forcing, name, now), force),
        old(forcing)@.wf(),
        !old(forcing)@.closed ==> old(forcing)@.has_room(),
    ensures
        if old(waiting)@.closed {
            refuses_as_closed(old(waiting)@, final(waiting)@, wait)
        } else {
            asks_for(old(waiting)@, final(waiting)@, name@, Mode::Wait, now@, wait)
        },
        wait matches Step::Eval(attempt, _) ==> attempt@.token.len() == 32,
        if old(trying)@.closed {
            refuses_as_closed(old(trying)@, final(trying)@, try_step)
        } else {
            asks_for(old(trying)@, final(trying)@, name@, Mode::Try, now@, try_step)
        },
        try_step matches Step::Eval(attempt, _) ==> attempt@.token.len() == 32,
        if old(forcing)@.closed {
            refuses_as_closed(old(forcing)@, final(forcing)@, force)
        } else {
            asks_for(old(forcing)@, final(forcing)@, name@, Mode::Force, now@, force)
        },
        force matches Step::Eval(attempt, _) ==> attempt@.token.len() == 32,
        final(waiting).connection() == old(waiting).connection(),
        final(trying).connection() == old(trying).connection(),
        final(forcing).connection() == old(forcing).connection(),
{
    lemma_begins(old(waiting)@, final(waiting)@, name@, Mode::Wait, now@, wait);
    lemma_begins(old(trying)@, final(trying)@, name@, Mode::Try, now@, try_step);
    lemma_begins(old(forcing)@, final(forcing)@, name@, Mode::Force, now@, force);
}

/// An attempt is made with the token that was drawn for it, in any mode.
pub proof fn attempt_carries_its_token<C>(
    locker: &mut Locker<C>,
    name: &str,
    mode: Mode,
    token: String,
    now: Timestamp,
    step: Step,
)
    requires
        call_ensures(Locker::<C>::try_once, (locker, name, mode, token, now), step),
        old(locker)@.wf(),
        !old(locker)@.closed ==> old(locker)@.has_room(),
    ensures
        if old(locker)@.closed {
            refuses_as_closed(old(locker)@, final(locker)@, step)
        } else {
            asks_for(old(locker)@, final(locker)@, name@, mode, now@, step)
        },
        step matches Step::Eval(attempt, call) ==> attempt@.token == token@ && call@.args[0]
            == token@,
        final(locker).connection() == old(locker).connection(),
{
    lemma_begins(old(locker)@, final(locker)@, name@, mode, now@, step);
}

/// Whoever waited asks again for the same lock, as one who waits, and under a fresh token:
/// the old use of its gate is given up first.
pub proof fn waiter_asks_again<C>(
    locker: &mut Locker<C>,
    attempt: Attempt,
    now: Timestamp,
    step: Step,
)
    requires
        call_ensures(Locker::<C>::waited, (locker, attempt, now), step),
        old(locker)@.wf(),
        !old(locker)@.closed ==> old(locker)@.has_room(),
    ensures
        exists|between: crate::state::LockerView| #[trigger]
            gives_up_gate(old(locker)@, between, attempt@.name, attempt@.gate) && if old(
                locker,
            )@.closed {
                refuses_as_closed(between, final(locker)@, step)
            } else {
                asks_for(between, final(locker)@, attempt@.name, Mode::Wait, now@, step)
            },
        step matches Step::Eval(next, _) ==> next@.token.len() == 32,
        final(locker).connection() == old(locker).connection(),
{
    let v = old(locker)@;
    let between = v.left(attempt@.name, &*attempt@.gate);
    crate::state::leaving_keeps_wf(v, attempt@.name, &*attempt@.gate);
    lemma_left(v, attempt@.name, attempt@.gate);
    lemma_begins(between, final(locker)@, attempt@.name, Mode::Wait, now@, step);
    assert(gives_up_gate(v, between, attempt@.name, attempt@.gate));
}

/// What comes of each reply. Who waits does so while the lock is held; anyone else is told.
/// Any other error is handed on as it is. A lock that was granted, or taken over, is held,
/// unless the locker was closed meanwhile: then the key is deleted.
pub proof fn replies_are_acted_on<C>(
    locker: &mut Locker<C>,
    attempt: Attempt,
    reply: Result<Option<String>, Error>,
    step: Step,
)
    requires
        call_ensures(Locker::<C>::evaluated, (locker, attempt, reply), step),
        old(locker)@.wf(),
        !old(locker)@.closed ==> old(locker)@.has_room(),
    ensures
        final(locker)@.wf(),
        final(locker).connection() == old(locker).connection(),
        reply matches Err(error) ==> if attempt@.mode == Mode::Wait && error.kind
            == ErrorKind::NotFound {
            waits(old(locker)@, final(locker)@, attempt@, step)
        } else {
            fails(
                old(locker)@,
                final(locker)@,
                attempt@,
                error.kind,
                error.details@,
                step,
            )
        },
        reply matches Ok(None) ==> attempt@.mode == Mode::Wait ==> waits(
            old(locker)@,
            final(locker)@,
            attempt@,
            step,
        ),
        reply matches Ok(None) ==> attempt@.mode == Mode::Try ==> fails(
            old(locker)@,
            final(locker)@,
            attempt@,
            ErrorKind::NotFound,
            "Lock is held by another acquirer"@,
            step,
        ),
        reply matches Ok(value) ==> value is Some || attempt@.mode == Mode::Force ==> if old(
            locker,
        )@.closed {
            &&& final(locker)@ == old(locker)@
            &&& step matches Step::Discard(discarded, call)
            &&& discarded@ == attempt@
            &&& deletes(call@, attempt@.key, attempt@.token)
        } else {
            holds(old(locker)@, final(locker)@, attempt@, step)
        },
{
    let v = old(locker)@;
    lemma_left(v, attempt@.name, attempt@.gate);
    if let Step::Held(guard, _) = step {
        let cancel = guard@.cancel;
        assert forall|i: int| 0 <= i < v.outstanding.len() implies (
        #[trigger] v.outstanding[i]).number() != cancel.number() by {}
        assert(!v.held.contains(cancel.number()));
        assert(v.registered(cancel).outstanding.drop_last() =~= v.outstanding);
        if v.outstanding.contains(cancel) {
            let i = choose|i: int| 0 <= i < v.outstanding.len() && v.outstanding[i] == cancel;
            assert(v.outstanding[i].number() == cancel.number());
        }
    }
}

/// Without tracking every wait is bounded by the poll interval, whatever reply led to it.
/// With tracking none is: a push ends it.
pub proof fn waits_are_bounded_without_tracking<C>(
    locker: &mut Locker<C>,
    attempt: Attempt,
    reply: Result<Option<String>, Error>,
    step: Step,
)
    requires
        call_ensures(Locker::<C>::evaluated, (locker, attempt, reply), step),
        step is Wait,
    ensures
        attempt@.mode == Mode::Wait,
        step matches Step::Wait(_, limit) && match limit {
            Some(limit) => old(locker)@.settings.no_caching && limit@ == old(
                locker,
            )@.settings.try_next,
            None => !old(locker)@.settings.no_caching,
        },
{
}

/// An attempt that is given up, by its acquirer or because the locker was closed, gives up
/// its gate and does nothing else. In the latter case the acquirer is told.
pub proof fn attempts_that_end_give_up_their_gate<C>(
    leaving: &mut Locker<C>,
    closed: &mut Locker<C>,
    attempt: Attempt,
    error: Error,
)
    requires
        call_ensures(Locker::<C>::abandon, (leaving, attempt), ()),
        old(leaving)@.wf(),
        call_ensures(Locker::<C>::discarded, (closed, attempt), error),
        old(closed)@.wf(),
    ensures
        gives_up_gate(old(leaving)@, final(leaving)@, attempt@.name, attempt@.gate),
        gives_up_gate(old(closed)@, final(closed)@, attempt@.name, attempt@.gate),
        final(leaving).connection() == old(leaving).connection(),
        final(closed).connection() == old(closed).connection(),
        error.kind == ErrorKind::Canceled,
        error.details@ == "Locker is closed"@,
{
    lemma_left(old(leaving)@, attempt@.name, attempt@.gate);
    lemma_left(old(closed)@, attempt@.name, attempt@.gate);
}

/// What drives an attempt, a guard or an extender sees which gate, key, token and acquisition
/// it is about.
pub proof fn handles_show_what_they_are_about(
    attempt: &Attempt,
    waited_on: &Arc<Gate>,
    attempt_key: &str,
    attempt_token: &str,
    guard: &LockGuard,
    key: &str,
    token: &str,
    extender: &Extender,
    gate: &Arc<Gate>,
    cancel: &Arc<Cancellation>,
)
    requires
        call_ensures(Attempt::gate, (attempt,), waited_on),
        call_ensures(Attempt::key, (attempt,), attempt_key),
        call_ensures(Attempt::token, (attempt,), attempt_token),
        call_ensures(LockGuard::key, (guard,), key),
        call_ensures(LockGuard::token, (guard,), token),
        call_ensures(Extender::gate, (extender,), gate),
        call_ensures(Extender::cancellation, (extender,), cancel),
    ensures
        *waited_on == attempt@.gate,
        attempt_key@ == attempt@.key,
        attempt_token@ == attempt@.token,
        key@ == guard@.key,
        token@ == guard@.token,
        *gate == extender@.gate,
        *cancel == extender@.cancel,
{
}

// Giving up.

/// Giving a lock up tells everyone who watches it, unless they were told, takes it off the
/// list, and keeps its gate.
pub proof fn giving_up_tells_everyone<C>(
    guard: &LockGuard,
    locker: &mut Locker<C>,
    wakes: Vec<Wake>,
)
    requires
        call_ensures(LockGuard::release::<C>, (guard, locker), wakes),
        old(locker)@.wf(),
    ensures
        final(locker)@.wf(),
        final(locker).connection() == old(locker).connection(),
        tells_of_loss(old(locker)@, final(locker)@, guard@.cancel, wakes@),
        gives_back(old(locker)@, final(locker)@, guard@.cancel.number()),
        only_acquisitions(old(locker)@, final(locker)@),
{
    lemma_deregistered(old(locker)@.cancelled(guard@.cancel.number()), guard@.cancel.number());
}

/// The end of a guard does the same, unless it was done, and then wakes one who waits for the
/// lock and gives up its gate.
pub proof fn end_of_a_guard_wakes_a_waiter<C>(
    guard: LockGuard,
    locker: &mut Locker<C>,
    wakes: Vec<Wake>,
)
    requires
        call_ensures(LockGuard::retire::<C>, (guard, locker), wakes),
        old(locker)@.wf(),
    ensures
        final(locker)@.wf(),
        final(locker).connection() == old(locker).connection(),
        gives_back(old(locker)@, final(locker)@, guard@.cancel.number()),
        is_gate_of(old(locker)@, guard@.name, guard@.gate) ==> one_user_fewer(
            old(locker)@,
            final(locker)@,
            guard@.name,
        ),
        !is_gate_of(old(locker)@, guard@.name, guard@.gate) ==> final(locker)@.gates == old(
            locker,
        )@.gates,
        final(locker)@.settings == old(locker)@.settings,
        final(locker)@.closed == old(locker)@.closed,
        final(locker)@.initialized == old(locker)@.initialized,
        ({
            let v = old(locker)@;
            let told: int = if v.held.contains(guard@.cancel.number()) {
                1
            } else {
                0
            };
            let woken: int = if v.gates.contains_key(guard@.name) {
                2
            } else {
                0
            };
            &&& wakes@.len() == told + woken
            &&& tells_of_loss(v, final(locker)@, guard@.cancel, wakes@.take(told))
            &&& woken == 2 ==> {
                &&& wakes@[told] == Wake::Free(v.gates[guard@.name].gate)
                &&& wakes@[told + 1] == Wake::Holder(v.gates[guard@.name].gate)
            }
        }),
{
    let v = old(locker)@;
    let number = guard@.cancel.number();
    lemma_deregistered(v.cancelled(number), number);
    crate::state::deregistering_keeps_wf(v.cancelled(number), number);
    lemma_left(v.released(number), guard@.name, guard@.gate);
}

// Extending.

/// Whether an extender ends: everyone is told, unless they were, and the key is deleted if it
/// is still its own.
pub open spec fn gives_out(
    v: crate::state::LockerView,
    w: crate::state::LockerView,
    extender: crate::extender::ExtenderView,
    action: Action,
) -> bool {
    &&& action matches Action::Delete(wakes, call)
    &&& deletes(call@, extender.key, extender.token)
    &&& tells_of_loss(v, w, extender.cancel, wakes@)
    &&& w.outstanding == v.outstanding
    &&& only_acquisitions(v, w)
}

/// What an event is to come to.
pub open spec fn carries_on(
    v: crate::state::LockerView,
    w: crate::state::LockerView,
    extender: crate::extender::ExtenderView,
    event: Event,
    action: Action,
) -> bool {
    match event {
        Event::Woken(by, now) => if by != Wakeup::Cancelled && v.held.contains(
            extender.cancel.number(),
        ) && 0 <= now@ + v.settings.validity {
            &&& w == v
            &&& action matches Action::Extend(call)
            &&& call@.script == Script::Extend
            &&& call@.key == extender.key
            &&& call@.args.len() == 2
            &&& call@.args[0] == extender.token
            &&& is_deadline(call@.args[1], now@, v.settings.validity)
        } else {
            gives_out(v, w, extender, action)
        },
        Event::Extended(reply) => match reply {
            Ok(extended) => if extended == 1 {
                &&& w == v
                &&& action matches Action::Wait(span)
                &&& span@ == v.settings.extend_every
            } else {
                gives_out(v, w, extender, action)
            },
            Err(_) => gives_out(v, w, extender, action),
        },
        Event::Deleted => w == v && action is Stop,
    }
}

proof fn lemma_reacts(
    v: crate::state::LockerView,
    w: crate::state::LockerView,
    extender: crate::extender::ExtenderView,
    event: Event,
    action: Action,
)
    requires
        v.wf(),
        crate::extender::reacts(v, w, extender, event, action),
    ensures
        carries_on(v, w, extender, event, action),
{
    if let Event::Woken(_, now) = event {
        lemma_deadline(v.settings, now@);
    }
}

/// Whatever wakes an extender while its lock is held, it moves the key's deadline to one
/// validity from now. When that succeeded it waits for one extend interval; when it did not,
/// or the lock was given up or lost, it tells everyone and deletes the key.
pub proof fn extender_keeps_a_held_lock_alive<C>(
    extender: &Extender,
    locker: &mut Locker<C>,
    event: Event,
    action: Action,
)
    requires
        call_ensures(Extender::step::<C>, (extender, locker, event), action),
        old(locker)@.wf(),
    ensures
        final(locker)@.wf(),
        final(locker).connection() == old(locker).connection(),
        carries_on(old(locker)@, final(locker)@, extender@, event, action),
{
    lemma_reacts(old(locker)@, final(locker)@, extender@, event, action);
}

/// The first thing an extender does is to wait for one extend interval.
pub proof fn extender_starts_with_a_wait<C>(
    extender: &Extender,
    locker: &Locker<C>,
    action: Action,
)
    requires
        call_ensures(Extender::start::<C>, (extender, locker), action),
    ensures
        action matches Action::Wait(span) && span@ == locker@.settings.extend_every,
{
}

/// With an extend interval shorter than the validity, the first extension of a lock that was
/// asked for at `asked` comes before the deadline that the request set, where nothing takes
/// longer than `slack` beyond the wait.
pub proof fn first_extension_comes_in_time<C>(
    extender: &Extender,
    locker: &Locker<C>,
    action: Action,
    asked: int,
    started: int,
    woken: int,
    slack: nat,
)
    requires
        call_ensures(Extender::start::<C>, (extender, locker), action),
        locker@.settings.extend_every + 2 * slack < locker@.settings.validity,
        asked <= started <= asked + slack,
        action matches Action::Wait(span) ==> started <= woken <= started + span@ + slack,
    ensures
        action is Wait,
        woken < asked + locker@.settings.validity,
{
}

/// In every run of an extender each wait lasts for exactly one extend interval.
pub proof fn every_wait_lasts_one_interval(
    extender: crate::extender::ExtenderView,
    turns: Seq<crate::laws::Turn>,
    at: int,
)
    requires
        crate::laws::is_run(extender, turns),
        0 <= at < turns.len(),
        turns[at].action is Wait,
    ensures
        turns[at].action matches Action::Wait(span) && span@
            == turns[at].before.settings.extend_every,
{
    lemma_reacts(
        turns[at].before,
        turns[at].after,
        extender,
        turns[at].event,
        turns[at].action,
    );
}

/// Whether a run is prompt: these are the times of its turns, in nanoseconds, and from one to
/// the next no more than `slack` passes beyond what it waits for.
pub open spec fn is_prompt(turns: Seq<crate::laws::Turn>, times: Seq<int>, slack: nat) -> bool {
    &&& times.len() == turns.len()
    &&& forall|i: int|
        0 <= i < turns.len() ==> ((#[trigger] turns[i]).event matches Event::Woken(_, now)
            ==> now@ == times[i])
    &&& forall|i: int, j: int|
        0 <= i && j == i + 1 && j < turns.len() ==> #[trigger] times[i] <= #[trigger] times[j]
            <= times[i] + slack + (match turns[i].action {
            Action::Wait(span) => span@,
            _ => 0,
        })
}

/// In a prompt run with an extend interval shorter than the validity, each extension that
/// succeeded is followed by the next before the deadline that it set, for as long as the
/// lock is held.
pub proof fn extensions_come_in_time(
    extender: crate::extender::ExtenderView,
    turns: Seq<crate::laws::Turn>,
    times: Seq<int>,
    slack: nat,
    at: int,
    settings: crate::config::SettingsView,
)
    requires
        crate::laws::is_run(extender, turns),
        is_prompt(turns, times, slack),
        0 <= at,
        at + 2 < turns.len(),
        turns[at].action is Extend,
        turns[at + 1].event matches Event::Extended(Ok(extended)) && extended == 1,
        forall|i: int| 0 <= i < turns.len() ==> (#[trigger] turns[i]).before.settings == settings,
        settings.extend_every + 2 * slack < settings.validity,
    ensures
        turns[at].action matches Action::Extend(call) && is_deadline(
            call@.args[1],
            times[at],
            settings.validity,
        ),
        turns[at + 1].action is Wait,
        turns[at + 2].event is Woken,
        times[at + 2] <= times[at] + settings.extend_every + 2 * slack,
        times[at + 2] < times[at] + settings.validity,
        (turns[at + 2].event matches Event::Woken(by, _) && by != Wakeup::Cancelled
            && turns[at + 2].before.held.contains(extender.cancel.number())) ==> (turns[at + 2].action matches Action::Extend(call) && is_deadline(
            call@.args[1],
            times[at + 2],
            settings.validity,
        )),
{
    let first = turns[at];
    let second = turns[at + 1];
    let third = turns[at + 2];
    lemma_reacts(first.before, first.after, extender, first.event, first.action);
    lemma_reacts(second.before, second.after, extender, second.event, second.action);
    lemma_reacts(third.before, third.after, extender, third.event, third.action);
    assert(crate::laws::comes_of(second.event, first.action));
    assert(crate::laws::comes_of(third.event, second.action));
    assert(times[at] <= times[at + 1]);
    assert(times[at + 1] <= times[at + 2]);
}

} // verus!
