//! The state of a locker, and what each step makes of it.

use std::sync::Arc;

use vstd::prelude::*;

use crate::gate::{Cancellation, Gate, Wake};

verus! {

/// A gate in the table, with the number of those who use it.
pub struct Slot {
    /// A lock's gate.
    pub gate: Arc<Gate>,
    /// How many acquirers, waiters and holders use it.
    pub refs: u64,
}

/// Every acquisition but the one with this number.
pub open spec fn others(number: u64) -> spec_fn(Arc<Cancellation>) -> bool {
    |cancel: Arc<Cancellation>| cancel.number() != number
}

/// The signal that an acquisition is lost.
pub open spec fn lost_wake() -> spec_fn(Arc<Cancellation>) -> Wake {
    |cancel: Arc<Cancellation>| Wake::Lost(cancel)
}

/// The state of a [`Locker`](crate::Locker), its client left out.
#[verifier::ext_equal]
pub struct LockerView {
    /// What it works with.
    pub settings: crate::config::SettingsView,
    /// One gate for each name that someone cares about.
    pub gates: Map<Seq<char>, Slot>,
    /// Those names, in the order in which they came.
    pub names: Seq<Seq<char>>,
    /// The acquisitions handed out and not given back, oldest first.
    pub outstanding: Seq<Arc<Cancellation>>,
    /// The numbers of the acquisitions handed out and not cancelled.
    pub held: Set<u64>,
    /// Whether it was closed.
    pub closed: bool,
    /// Whether it was initialized.
    pub initialized: bool,
    /// How many gate uses and acquisitions were numbered so far.
    pub issued: u64,
}

impl LockerView {
    /// The scripts are those of the settings, every name has one gate and is used, and
    /// numbers occur once and were issued.
    pub open spec fn wf(self) -> bool {
        &&& self.settings.scripts == crate::script::scripts_for(self.settings.fallback_px)
        &&& self.names.no_duplicates()
        &&& forall|name: Seq<char>| #[trigger]
            self.names.contains(name) <==> self.gates.contains_key(name)
        &&& forall|name: Seq<char>| #[trigger]
            self.gates.contains_key(name) ==> {
                &&& 0 < self.gates[name].refs <= self.issued
                &&& self.gates[name].gate.number() < self.issued
            }
        &&& forall|a: Seq<char>, b: Seq<char>|
            self.gates.contains_key(a) && self.gates.contains_key(b)
                && #[trigger] self.gates[a].gate.number()
                == #[trigger] self.gates[b].gate.number() ==> a == b
        &&& forall|i: int|
            0 <= i < self.outstanding.len() ==> #[trigger] self.outstanding[i].number()
                < self.issued
        &&& forall|i: int, j: int|
            0 <= i < j < self.outstanding.len() ==> #[trigger] self.outstanding[i].number()
                != #[trigger] self.outstanding[j].number()
        &&& forall|number: u64| #[trigger] self.held.contains(number) ==> number < self.issued
    }

    /// Whether one more gate use or acquisition can be numbered.
    pub open spec fn has_room(self) -> bool {
        self.issued < u64::MAX
    }

    /// How many use `name`'s gate.
    pub open spec fn refs(self, name: Seq<char>) -> int {
        if self.gates.contains_key(name) {
            self.gates[name].refs as int
        } else {
            0
        }
    }

    /// Whether `gate` is `name`'s gate.
    pub open spec fn uses(self, name: Seq<char>, gate: &Gate) -> bool {
        self.gates.contains_key(name) && self.gates[name].gate.number() == gate.number()
    }

    /// Whether `gate` is what a new user of `name` gets: that name's gate, or a
    /// new one where there is none.
    pub open spec fn admits(self, name: Seq<char>, gate: &Gate) -> bool {
        if self.gates.contains_key(name) {
            *self.gates[name].gate == *gate
        } else {
            gate.number() == self.issued
        }
    }

    /// The state once one more uses `gate` under `name`.
    pub open spec fn entered(self, name: Seq<char>, gate: Arc<Gate>) -> LockerView {
        LockerView {
            gates: self.gates.insert(name, Slot { gate, refs: (self.refs(name) + 1) as u64 }),
            names: if self.gates.contains_key(name) {
                self.names
            } else {
                self.names.push(name)
            },
            issued: (self.issued + 1) as u64,
            ..self
        }
    }

    /// The state once one fewer uses `gate` under `name`: the last one takes it
    /// out of the table. A gate that is not the one of `name` changes nothing.
    pub open spec fn left(self, name: Seq<char>, gate: &Gate) -> LockerView {
        if !self.uses(name, gate) {
            self
        } else if self.refs(name) <= 1 {
            LockerView {
                gates: self.gates.remove(name),
                names: self.names.remove(self.names.index_of(name)),
                ..self
            }
        } else {
            LockerView {
                gates: self.gates.insert(
                    name,
                    Slot { gate: self.gates[name].gate, refs: (self.refs(name) - 1) as u64 },
                ),
                ..self
            }
        }
    }

    /// Whether the acquisition with this number is held: handed out and not cancelled.
    pub open spec fn live(self, number: u64) -> bool {
        self.held.contains(number)
    }

    /// Whether the acquisition with this number was handed out and not given back.
    pub open spec fn is_outstanding(self, number: u64) -> bool {
        exists|i: int|
            0 <= i < self.outstanding.len() && #[trigger] self.outstanding[i].number() == number
    }

    /// The state once a new acquisition is handed out.
    pub open spec fn registered(self, cancel: Arc<Cancellation>) -> LockerView {
        LockerView {
            outstanding: self.outstanding.push(cancel),
            held: self.held.insert(cancel.number()),
            issued: (self.issued + 1) as u64,
            ..self
        }
    }

    /// The state once an acquisition was cancelled.
    pub open spec fn cancelled(self, number: u64) -> LockerView {
        LockerView { held: self.held.remove(number), ..self }
    }

    /// The state once an acquisition was given back.
    pub open spec fn deregistered(self, number: u64) -> LockerView {
        LockerView {
            outstanding: self.outstanding.filter(others(number)),
            ..self
        }
    }

    /// The state once an acquisition was cancelled and given back.
    pub open spec fn released(self, number: u64) -> LockerView {
        self.cancelled(number).deregistered(number)
    }

    /// The state once the locker was closed: whatever was not given back is cancelled.
    pub open spec fn shut(self) -> LockerView {
        LockerView {
            closed: true,
            outstanding: Seq::empty(),
            held: self.held.filter(|number: u64| !self.is_outstanding(number)),
            ..self
        }
    }

    /// Which acquisitions are held.
    pub open spec fn held_ones(self) -> spec_fn(Arc<Cancellation>) -> bool {
        |cancel: Arc<Cancellation>| self.live(cancel.number())
    }

    /// The signals of cancelling an acquisition: only the first time is anyone told.
    pub open spec fn cancel_wakes(self, cancel: Arc<Cancellation>) -> Seq<Wake> {
        if self.live(cancel.number()) {
            seq![Wake::Lost(cancel)]
        } else {
            seq![]
        }
    }

    /// The signals of cancelling every acquisition that was not given back, oldest first.
    pub open spec fn cancel_all_wakes(self) -> Seq<Wake> {
        self.outstanding.filter(self.held_ones()).map_values(lost_wake())
    }

    /// The signals when the lock `name` may be free or its key changed: one waiter and
    /// the holder are told.
    pub open spec fn gate_wakes(self, name: Seq<char>) -> Seq<Wake> {
        if self.gates.contains_key(name) {
            seq![Wake::Free(self.gates[name].gate), Wake::Holder(self.gates[name].gate)]
        } else {
            seq![]
        }
    }

    /// The signals when any lock may be free or have changed: every waiter and every
    /// holder is told.
    pub open spec fn all_gate_wakes(self) -> Seq<Wake> {
        Seq::new(
            2 * self.names.len(),
            |i: int|
                if i % 2 == 0 {
                    Wake::FreeAll(self.gates[self.names[i / 2]].gate)
                } else {
                    Wake::Holder(self.gates[self.names[i / 2]].gate)
                },
        )
    }

    /// The signals when a key changed on the server: none unless it is the key, in
    /// UTF-8, of a lock that someone here cares about.
    pub open spec fn key_wakes(self, key: Seq<u8>) -> Seq<Wake> {
        if vstd::utf8::valid_utf8(key) {
            match crate::key::name_of(self.settings.prefix, vstd::utf8::decode_utf8(key)) {
                Some(name) => self.gate_wakes(name),
                None => seq![],
            }
        } else {
            seq![]
        }
    }

    /// The signals when several keys changed, key by key.
    pub open spec fn keys_wakes(self, keys: Seq<Vec<u8>>) -> Seq<Wake>
        decreases keys.len(),
    {
        if keys.len() == 0 {
            seq![]
        } else {
            self.keys_wakes(keys.drop_last()) + self.key_wakes(keys.last()@)
        }
    }

    /// The signals of an invalidation. One without keys means that the server
    /// forgot what it tracked, so that anything may have changed.
    pub open spec fn invalidation_wakes(self, keys: Seq<Vec<u8>>) -> Seq<Wake> {
        if keys.len() == 0 {
            self.all_gate_wakes()
        } else {
            self.keys_wakes(keys)
        }
    }
}

/// A new user keeps the state well-formed.
pub proof fn entering_keeps_wf(v: LockerView, name: Seq<char>, gate: Arc<Gate>)
    requires
        v.wf(),
        v.has_room(),
        v.admits(name, &*gate),
    ensures
        v.entered(name, gate).wf(),
{
    let w = v.entered(name, gate);
    assert forall|n: Seq<char>| #[trigger] w.names.contains(n) <==> w.gates.contains_key(n) by {
        assert(v.names.contains(n) <==> v.gates.contains_key(n));
        assert(v.names.contains(name) <==> v.gates.contains_key(name));
        if w.names.contains(n) {
            let i = choose|i: int| 0 <= i < w.names.len() && w.names[i] == n;
            assert(i < v.names.len() ==> v.names[i] == n);
        }
        if v.names.contains(n) {
            let i = choose|i: int| 0 <= i < v.names.len() && v.names[i] == n;
            assert(w.names[i] == n);
        } else if n == name {
            assert(w.names[v.names.len() as int] == n);
        }
    }
    assert(w.names.no_duplicates()) by {
        assert(v.names.contains(name) <==> v.gates.contains_key(name));
    }
}

/// Filtering a row that the predicate accepts throughout changes nothing.
pub(crate) proof fn lemma_filter_all<A>(s: Seq<A>, pred: spec_fn(A) -> bool)
    requires
        forall|i: int| 0 <= i < s.len() ==> pred(#[trigger] s[i]),
    ensures
        s.filter(pred) == s,
    decreases s.len(),
{
    reveal(Seq::filter);
    if s.len() > 0 {
        lemma_filter_all(s.drop_last(), pred);
        assert(s =~= s.drop_last().push(s.last()));
    }
}

/// Filtering out what stands in one place only takes that place out.
pub(crate) proof fn lemma_filter_one<A>(s: Seq<A>, pred: spec_fn(A) -> bool, at: int)
    requires
        0 <= at < s.len(),
        forall|i: int| 0 <= i < s.len() ==> (pred(#[trigger] s[i]) <==> i != at),
    ensures
        s.filter(pred) == s.remove(at),
{
    let before = s.take(at);
    let here = seq![s[at]];
    let after = s.skip(at + 1);
    assert(s =~= before + here + after);
    Seq::filter_distributes_over_add(before + here, after, pred);
    Seq::filter_distributes_over_add(before, here, pred);
    lemma_filter_all(before, pred);
    lemma_filter_all(after, pred);
    assert(here.filter(pred) =~= Seq::empty()) by {
        reveal_with_fuel(Seq::filter, 2);
        assert(here.drop_last() =~= Seq::empty());
        assert(!pred(s[at]));
    }
    assert(s.remove(at) =~= before + after);
}

/// A user who leaves keeps the state well-formed.
pub proof fn leaving_keeps_wf(v: LockerView, name: Seq<char>, gate: &Gate)
    requires
        v.wf(),
    ensures
        v.left(name, gate).wf(),
{
    let w = v.left(name, gate);
    if v.uses(name, gate) && v.refs(name) <= 1 {
        assert(v.names.contains(name));
        let at = v.names.index_of(name);
        assert(0 <= at < v.names.len() && v.names[at] == name);
        v.names.remove_ensures(at);
        assert forall|n: Seq<char>| #[trigger]
            w.names.contains(n) <==> w.gates.contains_key(n) by {
            assert(v.names.contains(n) <==> v.gates.contains_key(n));
            if w.names.contains(n) {
                let i = choose|i: int| 0 <= i < w.names.len() && w.names[i] == n;
                assert(v.names[if i < at {
                    i
                } else {
                    i + 1
                }] == n);
            }
            if v.names.contains(n) && n != name {
                let i = choose|i: int| 0 <= i < v.names.len() && v.names[i] == n;
                assert(w.names[if i < at {
                    i
                } else {
                    i - 1
                }] == n);
            }
        }
    } else if v.uses(name, gate) {
        assert forall|n: Seq<char>| #[trigger]
            w.names.contains(n) <==> w.gates.contains_key(n) by {
            assert(v.names.contains(n) <==> v.gates.contains_key(n));
        }
    }
}

/// Giving an acquisition back keeps the state well-formed, and it is outstanding no more.
pub proof fn deregistering_keeps_wf(v: LockerView, number: u64)
    requires
        v.wf(),
    ensures
        v.deregistered(number).wf(),
        !v.deregistered(number).is_outstanding(number),
{
    let w = v.deregistered(number);
    if exists|at: int| 0 <= at < v.outstanding.len() && v.outstanding[at].number() == number {
        let at = choose|at: int|
            0 <= at < v.outstanding.len() && v.outstanding[at].number() == number;
        lemma_filter_one(v.outstanding, others(number), at);
        v.outstanding.remove_ensures(at);
    } else {
        lemma_filter_all(v.outstanding, others(number));
    }
}

/// Whoever comes and goes leaves the gates as they were.
pub proof fn leaving_undoes_entering(v: LockerView, name: Seq<char>, gate: Arc<Gate>)
    requires
        v.wf(),
        v.has_room(),
        v.admits(name, &*gate),
    ensures
        v.entered(name, gate).left(name, &*gate) == (LockerView {
            issued: (v.issued + 1) as u64,
            ..v
        }),
{
    let w = v.entered(name, gate);
    let u = w.left(name, &*gate);
    if v.gates.contains_key(name) {
        assert(u.gates =~= v.gates);
    } else {
        assert(!v.names.contains(name));
        let last = v.names.len() as int;
        assert(w.names[last] == name);
        assert(w.names.contains(name));
        let at = w.names.index_of(name);
        assert(at == last) by {
            if at < last {
                assert(v.names[at] == name);
            }
        }
        assert(u.names =~= v.names);
        assert(u.gates =~= v.gates);
    }
}

/// Cancelling an acquisition and giving it back leaves the others as they were before it.
pub proof fn releasing_undoes_handing_out(v: LockerView, cancel: Arc<Cancellation>)
    requires
        v.wf(),
        cancel.number() == v.issued,
    ensures
        v.registered(cancel).live(cancel.number()),
        v.registered(cancel).is_outstanding(cancel.number()),
        v.registered(cancel).released(cancel.number()) == (LockerView {
            issued: (v.issued + 1) as u64,
            ..v
        }),
{
    let number = cancel.number();
    let w = v.registered(cancel);
    let last = v.outstanding.len() as int;
    assert(w.outstanding[last].number() == number);
    assert(w.outstanding.filter(others(number)) == v.outstanding) by {
        assert forall|i: int| 0 <= i < w.outstanding.len() implies (others(number)(
            #[trigger] w.outstanding[i],
        ) <==> i != last) by {
            if i < last {
                assert(w.outstanding[i] == v.outstanding[i]);
                assert(v.outstanding[i].number() < v.issued);
            }
        }
        lemma_filter_one(w.outstanding, others(number), last);
        assert(w.outstanding.remove(last) =~= v.outstanding);
    }
    assert(w.held.remove(number) =~= v.held) by {
        assert(!v.held.contains(number));
    }
}

} // verus!
