//! The queue of invocations that wait for the operator.

use crate::classify::Risk;
use crate::json::{Json, JsonView};
use crate::pending_map::{
    has_key, map_clear, map_contains_key, map_drain, map_insert, map_len, map_new,
    map_shift_remove, map_shift_remove_index, pending_entries,
};
use crate::text::str_eq;
use indexmap::IndexMap;
use vstd::prelude::*;

verus! {

/// The most invocations that wait at one time.
pub const MAX_PENDING_INVOKES: usize = 50;

/// Seconds after which an invocation nobody has decided is rejected as
/// still under review.
pub const INVOKE_AUTO_REJECT_SECS: u64 = 25;

/// Seconds after which the gateway itself gives an invocation up.
pub const GATEWAY_INVOKE_TIMEOUT_SECS: u64 = 30;

/// One invocation that the gateway asked for and the operator has not yet
/// decided.
#[derive(Debug, Clone, PartialEq, Eq)]
pub struct PendingInvoke {
    /// The gateway's identifier of the invocation.
    pub id: String,
    /// The node identifier that the gateway used, echoed in every result.
    pub node_id: String,
    /// The name of the command.
    pub command: String,
    /// The arguments of the command.
    pub args: Json,
    /// The coarse classification of the command.
    pub risk: Risk,
}

/// Mathematical model of a [`PendingInvoke`].
pub struct PendingInvokeView {
    pub id: Seq<char>,
    pub node_id: Seq<char>,
    pub command: Seq<char>,
    pub args: JsonView,
    pub risk: Risk,
}

impl View for PendingInvoke {
    type V = PendingInvokeView;

    open spec fn view(&self) -> PendingInvokeView {
        PendingInvokeView {
            id: self.id@,
            node_id: self.node_id@,
            command: self.command@,
            args: self.args@,
            risk: self.risk,
        }
    }
}

/// An invocation that left the queue without a decision: its identifier and
/// the node identifier to echo in its rejection.
#[derive(Debug, Clone, PartialEq, Eq)]
pub struct Dropped {
    pub id: String,
    pub node_id: String,
}

/// What became of an invocation handed to [`InvokeStore::insert`].
#[derive(Debug, Clone, PartialEq, Eq)]
pub enum InsertOutcome {
    /// An invocation with this identifier was already waiting; nothing changed.
    Duplicate,
    /// The invocation now waits; `evicted` lists, oldest first, those that
    /// had to make room for it.
    Inserted { evicted: Vec<Dropped> },
}

/// The identifier and node identifier of each invocation of a sequence.
pub open spec fn dropped_of(pending: Seq<PendingInvokeView>) -> Seq<(Seq<char>, Seq<char>)> {
    pending.map_values(|p: PendingInvokeView| (p.id, p.node_id))
}

/// The identifier and node identifier of each dropped invocation.
pub open spec fn dropped_view(dropped: Seq<Dropped>) -> Seq<(Seq<char>, Seq<char>)> {
    dropped.map_values(|d: Dropped| (d.id@, d.node_id@))
}

/// How many of `len` waiting invocations leave before one more can enter.
pub open spec fn evict_count(len: nat) -> nat {
    if len >= MAX_PENDING_INVOKES {
        (len - MAX_PENDING_INVOKES + 1) as nat
    } else {
        0
    }
}

/// The index of the invocation `id` in a sequence, if it is there.
pub open spec fn position(pending: Seq<PendingInvokeView>, id: Seq<char>) -> Option<int> {
    if exists|i: int| 0 <= i < pending.len() && (#[trigger] pending[i]).id == id {
        Some(choose|i: int| 0 <= i < pending.len() && (#[trigger] pending[i]).id == id)
    } else {
        None
    }
}

/// The waiting invocations, oldest first, and the marks of those that were
/// rejected as still under review.
pub struct InvokeStore {
    map: IndexMap<String, PendingInvoke>,
    expired: Vec<String>,
}

impl InvokeStore {
    /// The waiting invocations, oldest first.
    pub closed spec fn pending(&self) -> Seq<PendingInvokeView> {
        pending_entries(self.map).map_values(|e: (Seq<char>, PendingInvokeView)| e.1)
    }

    /// The identifiers marked as rejected while still waiting.
    pub closed spec fn expired(&self) -> Set<Seq<char>> {
        Set::new(|id: Seq<char>| exists|i: int| 0 <= i < self.expired@.len() && (#[trigger] self.expired@[i])@ == id)
    }

    /// Whether an invocation with this identifier waits.
    pub open spec fn contains(&self, id: Seq<char>) -> bool {
        position(self.pending(), id) is Some
    }

    /// What holds of the representation: each invocation is filed under its
    /// own identifier and no mark occurs twice.
    pub closed spec fn inner_wf(&self) -> bool {
        &&& forall|i: int|
            0 <= i < pending_entries(self.map).len() ==> (#[trigger] pending_entries(self.map)[i]).0
                == pending_entries(self.map)[i].1.id
        &&& forall|i: int, j: int|
            0 <= i < j < self.expired@.len() ==> (#[trigger] self.expired@[i])@
                != (#[trigger] self.expired@[j])@
    }

    /// The invariant of the queue: at most [`MAX_PENDING_INVOKES`] invocations
    /// wait, no identifier waits twice, and only waiting invocations are marked.
    pub open spec fn wf(&self) -> bool {
        &&& self.inner_wf()
        &&& self.pending().len() <= MAX_PENDING_INVOKES
        &&& forall|i: int, j: int|
            0 <= i < j < self.pending().len() ==> (#[trigger] self.pending()[i]).id
                != (#[trigger] self.pending()[j]).id
        &&& forall|id: Seq<char>| #[trigger] self.expired().contains(id) ==> self.contains(id)
    }

    /// Whether `self` is `before` after `invoke` was handed in, with the
    /// outcome `out`. An invocation whose identifier already waits is
    /// absorbed and changes nothing. Otherwise the oldest invocations leave
    /// while the queue is full, together with their marks, and the new one
    /// goes last.
    pub open spec fn inserted(
        &self,
        before: &Self,
        invoke: PendingInvokeView,
        out: InsertOutcome,
    ) -> bool {
        if before.contains(invoke.id) {
            &&& out is Duplicate
            &&& self.pending() == before.pending()
            &&& self.expired() == before.expired()
        } else {
            let k = evict_count(before.pending().len()) as int;
            &&& out is Inserted
            &&& dropped_view(out->evicted@) == dropped_of(before.pending().take(k))
            &&& self.pending() == before.pending().skip(k).push(invoke)
            &&& self.expired() == before.expired().difference(
                Set::new(|id: Seq<char>| position(before.pending().take(k), id) is Some),
            )
        }
    }

    /// Whether `self` is `before` after the invocation `id` was asked for,
    /// with the answer `r`. An invocation that waits leaves the queue with
    /// its mark, and the answer holds it and whether it was marked; for one
    /// that does not wait nothing changes.
    pub open spec fn taken(
        &self,
        before: &Self,
        id: Seq<char>,
        r: Option<(PendingInvoke, bool)>,
    ) -> bool {
        match r {
            None => !before.contains(id) && self.pending() == before.pending() && self.expired()
                == before.expired(),
            Some(pair) => before.contains(id) && {
                let i = position(before.pending(), id)->0;
                &&& pair.0@ == before.pending()[i]
                &&& pair.1 == before.expired().contains(id)
                &&& self.pending() == before.pending().remove(i)
                &&& self.expired() == before.expired().remove(id)
            },
        }
    }

    /// Whether `self` is `before` after the timer of the invocation `id`
    /// fired, with `still_pending` saying whether it still waited. One
    /// that still waits is marked and stays in the queue; for one that does
    /// not nothing changes.
    pub open spec fn marked(&self, before: &Self, id: Seq<char>, still_pending: bool) -> bool {
        &&& still_pending == before.contains(id)
        &&& self.pending() == before.pending()
        &&& self.expired() == if still_pending {
            before.expired().insert(id)
        } else {
            before.expired()
        }
    }

    /// An empty queue.
    pub fn new() -> (s: InvokeStore)
        ensures
            s.wf(),
            s.pending() == Seq::<PendingInvokeView>::empty(),
            s.expired() == Set::<Seq<char>>::empty(),
    {
        let s = InvokeStore { map: map_new(), expired: Vec::new() };
        assert(s.pending() =~= Seq::<PendingInvokeView>::empty());
        assert(s.expired() =~= Set::<Seq<char>>::empty());
        s
    }

    /// Whether the invocation `id` is marked as rejected while waiting.
    pub fn is_marked(&self, id: &str) -> (b: bool)
        ensures
            b == self.expired().contains(id@),
    {
        match index_of(&self.expired, id) {
            Some(i) => {
                assert(self.expired@[i as int]@ == id@);
                true
            },
            None => false,
        }
    }

    /// The number of waiting invocations.
    pub fn len(&self) -> (n: usize)
        ensures
            n == self.pending().len(),
    {
        map_len(&self.map)
    }
}

/// Whether no identifier occurs twice in a sequence of invocations.
pub open spec fn distinct_ids(pending: Seq<PendingInvokeView>) -> bool {
    forall|i: int, j: int|
        0 <= i < j < pending.len() ==> (#[trigger] pending[i]).id != (#[trigger] pending[j]).id
}

/// Where identifiers are distinct, the invocation at `i` is the one that
/// [`position`] finds for its identifier.
pub proof fn lemma_position(pending: Seq<PendingInvokeView>, i: int)
    requires
        distinct_ids(pending),
        0 <= i < pending.len(),
    ensures
        position(pending, pending[i].id) == Some(i),
{
    let id = pending[i].id;
    let j = choose|j: int| 0 <= j < pending.len() && (#[trigger] pending[j]).id == id;
    if j < i {
        assert(pending[j].id != pending[i].id);
    } else if i < j {
        assert(pending[i].id != pending[j].id);
    }
}

/// The index of the first string of `list` equal to `s`.
fn index_of(list: &Vec<String>, s: &str) -> (r: Option<usize>)
    ensures
        match r {
            Some(i) => i < list@.len() && list@[i as int]@ == s@,
            None => forall|k: int| 0 <= k < list@.len() ==> (#[trigger] list@[k])@ != s@,
        },
{
    let mut i: usize = 0;
    while i < list.len()
        invariant
            i <= list.len(),
            forall|k: int| 0 <= k < i ==> (#[trigger] list@[k])@ != s@,
        decreases list.len() - i,
    {
        if str_eq(list[i].as_str(), s) {
            return Some(i);
        }
        i = i + 1;
    }
    None
}

impl InvokeStore {
    /// Whether an invocation with this identifier waits.
    pub fn contains_id(&self, id: &str) -> (b: bool)
        requires
            self.wf(),
        ensures
            b == self.contains(id@),
    {
        let b = map_contains_key(&self.map, id);
        proof {
            let entries = pending_entries(self.map);
            if b {
                let i = choose|i: int| 0 <= i < entries.len() && (#[trigger] entries[i]).0 == id@;
                assert(self.pending()[i].id == id@);
            } else {
                if self.contains(id@) {
                    let i = position(self.pending(), id@)->0;
                    assert(entries[i].0 == id@);
                }
            }
        }
        b
    }

    /// Removes the mark of `id`, if it has one.
    fn unmark(&mut self, id: &str) -> (was: bool)
        requires
            old(self).inner_wf(),
        ensures
            final(self).inner_wf(),
            final(self).map == old(self).map,
            was == old(self).expired().contains(id@),
            final(self).expired() == old(self).expired().remove(id@),
    {
        match index_of(&self.expired, id) {
            Some(i) => {
                let ghost before = self.expired@;
                self.expired.remove(i);
                proof {
                    assert(before[i as int]@ == id@);
                    assert forall|x: Seq<char>|
                        final(self).expired().contains(x) == old(self).expired().remove(
                            id@,
                        ).contains(x) by {
                        if final(self).expired().contains(x) {
                            let k = choose|k: int|
                                0 <= k < self.expired@.len() && (#[trigger] self.expired@[k])@ == x;
                            if k < i {
                                assert(before[k]@ == x);
                            } else {
                                assert(before[k + 1]@ == x);
                            }
                        }
                        if old(self).expired().remove(id@).contains(x) {
                            let k = choose|k: int|
                                0 <= k < before.len() && (#[trigger] before[k])@ == x;
                            if k < i {
                                assert(self.expired@[k]@ == x);
                            } else {
                                assert(self.expired@[k - 1]@ == x);
                            }
                        }
                    }
                    assert(final(self).expired() =~= old(self).expired().remove(id@));
                }
                true
            },
            None => {
                proof {
                    assert(!old(self).expired().contains(id@));
                    assert(final(self).expired() =~= old(self).expired().remove(id@));
                }
                false
            },
        }
    }
}

impl InvokeStore {
    /// Files an invocation. One whose identifier already waits is absorbed
    /// and changes nothing. Otherwise the oldest invocations leave while the
    /// queue is full, together with their marks, and the new one goes last.
    pub fn insert(&mut self, invoke: PendingInvoke) -> (r: InsertOutcome)
        requires
            old(self).wf(),
        ensures
            final(self).wf(),
            final(self).inserted(old(self), invoke@, r),
    {
        if self.contains_id(invoke.id.as_str()) {
            return InsertOutcome::Duplicate;
        }
        let ghost start = old(self).pending();
        let ghost marks = old(self).expired();
        let mut evicted: Vec<Dropped> = Vec::new();
        proof {
            assert(start.skip(0) =~= start);
            assert(dropped_view(evicted@) =~= dropped_of(start.take(0)));
            assert(marks.difference(
                Set::new(|id: Seq<char>| position(start.take(0), id) is Some),
            ) =~= marks);
        }
        while map_len(&self.map) >= MAX_PENDING_INVOKES
            invariant
                self.inner_wf(),
                start == old(self).pending(),
                marks == old(self).expired(),
                old(self).wf(),
                evicted@.len() <= start.len(),
                self.pending() == start.skip(evicted@.len() as int),
                dropped_view(evicted@) == dropped_of(start.take(evicted@.len() as int)),
                self.expired() == marks.difference(
                    Set::new(
                        |id: Seq<char>|
                            position(start.take(evicted@.len() as int), id) is Some,
                    ),
                ),
                evicted@.len() as int == start.len() - self.pending().len(),
                evicted@.len() > 0 ==> self.pending().len() >= MAX_PENDING_INVOKES - 1,
            decreases self.pending().len(),
        {
            let ghost n = evicted@.len() as int;
            let ghost before = pending_entries(self.map);
            let ghost marks_before = self.expired();
            match map_shift_remove_index(&mut self.map, 0) {
                Some(pair) => {
                    let (eid, einv) = pair;
                    proof {
                        assert(before[0] == (eid@, einv@));
                        assert(self.pending() =~= start.skip(n + 1)) by {
                            assert(pending_entries(self.map) == before.remove(0));
                            assert forall|k: int| 0 <= k < self.pending().len() implies self.pending()[k]
                                == start.skip(n + 1)[k] by {
                                assert(before.remove(0)[k] == before[k + 1]);
                                assert(start.skip(n)[k + 1] == start[n + k + 1]);
                            }
                        }
                        assert(start[n] == einv@) by {
                            assert(start.skip(n)[0] == start[n]);
                        }
                        assert(eid@ == einv@.id);
                    }
                    self.unmark(eid.as_str());
                    evicted.push(Dropped { id: eid, node_id: einv.node_id });
                    proof {
                        assert(dropped_view(evicted@) =~= dropped_of(start.take(n + 1))) by {
                            assert(start.take(n + 1) =~= start.take(n).push(start[n]));
                        }
                        assert(self.expired() =~= marks.difference(
                            Set::new(|id: Seq<char>| position(start.take(n + 1), id) is Some),
                        )) by {
                            assert forall|x: Seq<char>|
                                (position(start.take(n + 1), x) is Some) == (position(
                                    start.take(n),
                                    x,
                                ) is Some || x == start[n].id) by {
                                if position(start.take(n + 1), x) is Some {
                                    let k = position(start.take(n + 1), x)->0;
                                    if k < n {
                                        assert(start.take(n)[k].id == x);
                                    }
                                }
                                if position(start.take(n), x) is Some {
                                    let k = position(start.take(n), x)->0;
                                    assert(start.take(n + 1)[k].id == x);
                                }
                                if x == start[n].id {
                                    assert(start.take(n + 1)[n].id == x);
                                }
                            }
                        }
                    }
                },
                None => {
                    assert(false);
                    return InsertOutcome::Duplicate;
                },
            }
        }
        let ghost k = evicted@.len() as int;
        proof {
            assert(k == evict_count(start.len()) as int);
        }
        let key = invoke.id.clone();
        let ghost target = invoke@;
        let ghost queue = pending_entries(self.map);
        let prev = map_insert(&mut self.map, key, invoke);
        proof {
            assert(!has_key(queue, target.id)) by {
                if has_key(queue, target.id) {
                    let i = choose|i: int| 0 <= i < queue.len() && (#[trigger] queue[i]).0 == target.id;
                    assert(start.skip(k)[i].id == target.id);
                    assert(start[k + i].id == target.id);
                }
            }
            assert(prev is None);
            assert(self.pending() =~= start.skip(k).push(target));
            assert forall|i: int, j: int| 0 <= i < j < self.pending().len() implies (#[trigger] self.pending()[i]).id
                != (#[trigger] self.pending()[j]).id by {
                if j < self.pending().len() - 1 {
                    assert(start[k + i].id != start[k + j].id);
                } else {
                    assert(start[k + i].id == self.pending()[i].id);
                }
            }
            assert forall|id: Seq<char>| #[trigger] self.expired().contains(id) implies self.contains(id) by {
                assert(marks.contains(id));
                let i = position(start, id)->0;
                if i < k {
                    assert(start.take(k)[i].id == id);
                }
                assert(self.pending()[i - k].id == id);
            }
        }
        InsertOutcome::Inserted { evicted }
    }
}

impl InvokeStore {
    /// Takes the invocation `id` out of the queue for the operator's
    /// decision, and says whether it had been marked as rejected while
    /// waiting. The mark leaves with it.
    pub fn take(&mut self, id: &str) -> (r: Option<(PendingInvoke, bool)>)
        requires
            old(self).wf(),
        ensures
            final(self).wf(),
            final(self).taken(old(self), id@, r),
    {
        let ghost start = self.pending();
        let ghost before = pending_entries(self.map);
        match map_shift_remove(&mut self.map, id) {
            None => {
                proof {
                    if old(self).contains(id@) {
                        let i = position(start, id@)->0;
                        assert(before[i].0 == id@);
                    }
                    assert(self.pending() == old(self).pending());
                    assert(self.expired() == old(self).expired());
                    assert forall|x: Seq<char>| #[trigger] self.expired().contains(x) implies self.contains(x) by {
                        assert(old(self).expired().contains(x));
                        assert(old(self).contains(x));
                    }
                }
                None
            },
            Some(value) => {
                let ghost i = choose|i: int|
                    0 <= i < before.len() && (#[trigger] before[i]) == (id@, value@)
                        && pending_entries(self.map) == before.remove(i);
                proof {
                    assert(start[i] == value@);
                    assert(start[i].id == id@);
                    lemma_position(start, i);
                    assert(self.pending() =~= start.remove(i));
                }
                let was = self.unmark(id);
                proof {
                    assert forall|a: int, b: int| 0 <= a < b < self.pending().len() implies (#[trigger] self.pending()[a]).id
                        != (#[trigger] self.pending()[b]).id by {
                        let a0 = if a < i { a } else { a + 1 };
                        let b0 = if b < i { b } else { b + 1 };
                        assert(start[a0].id != start[b0].id);
                    }
                    assert forall|x: Seq<char>| #[trigger] self.expired().contains(x) implies self.contains(x) by {
                        assert(old(self).expired().remove(id@).contains(x));
                        assert(old(self).expired().contains(x) && x != id@);
                        assert(old(self).contains(x));
                        let j = position(start, x)->0;
                        assert(start[j].id == x);
                        assert(j != i);
                        let j1 = if j < i { j } else { j - 1 };
                        assert(self.pending()[j1].id == x);
                    }
                }
                Some((value, was))
            },
        }
    }

    /// Marks the invocation `id` as rejected while still waiting, if it
    /// still waits; the invocation stays in the queue. Says whether it
    /// still waited.
    pub fn mark_expired(&mut self, id: &str) -> (still_pending: bool)
        requires
            old(self).wf(),
        ensures
            final(self).wf(),
            final(self).marked(old(self), id@, still_pending),
    {
        if !self.contains_id(id) {
            return false;
        }
        match index_of(&self.expired, id) {
            Some(_) => {
                proof {
                    assert(self.expired().contains(id@));
                    assert(self.expired() =~= old(self).expired().insert(id@));
                }
            },
            None => {
                let ghost before = self.expired@;
                self.expired.push(String::from_str(id));
                proof {
                    assert(self.expired@[before.len() as int]@ == id@);
                    assert forall|x: Seq<char>|
                        self.expired().contains(x) == old(self).expired().insert(id@).contains(
                            x,
                        ) by {
                        if self.expired().contains(x) {
                            let k = choose|k: int|
                                0 <= k < self.expired@.len() && (#[trigger] self.expired@[k])@ == x;
                            if k < before.len() {
                                assert(before[k]@ == x);
                            }
                        }
                        if old(self).expired().contains(x) {
                            let k = choose|k: int|
                                0 <= k < before.len() && (#[trigger] before[k])@ == x;
                            assert(self.expired@[k]@ == x);
                        }
                    }
                    assert(self.expired() =~= old(self).expired().insert(id@));
                }
            },
        }
        true
    }

    /// Empties the queue and hands out, oldest first, the invocations that
    /// waited in it.
    pub fn drain(&mut self) -> (r: Vec<Dropped>)
        requires
            old(self).wf(),
        ensures
            final(self).wf(),
            final(self).pending() == Seq::<PendingInvokeView>::empty(),
            final(self).expired() == Set::<Seq<char>>::empty(),
            dropped_view(r@) == dropped_of(old(self).pending()),
    {
        let ghost start = self.pending();
        let pairs = map_drain(&mut self.map);
        self.expired = Vec::new();
        let mut out: Vec<Dropped> = Vec::new();
        let mut i: usize = 0;
        while i < pairs.len()
            invariant
                i <= pairs.len(),
                pairs@.len() == start.len(),
                out@.len() == i,
                forall|k: int| 0 <= k < pairs@.len() ==> start[k] == (#[trigger] pairs@[k]).1@,
                forall|k: int| 0 <= k < pairs@.len() ==> start[k].id == (#[trigger] pairs@[k]).0@,
                forall|k: int|
                    0 <= k < i ==> (#[trigger] out@[k]).id@ == start[k].id && out@[k].node_id@
                        == start[k].node_id,
            decreases pairs.len() - i,
        {
            out.push(Dropped { id: pairs[i].0.clone(), node_id: pairs[i].1.node_id.clone() });
            i = i + 1;
        }
        proof {
            assert(self.pending() =~= Seq::<PendingInvokeView>::empty());
            assert(self.expired() =~= Set::<Seq<char>>::empty());
            assert(dropped_view(out@) =~= dropped_of(start));
        }
        out
    }

    /// Forgets every waiting invocation and every mark.
    pub fn clear(&mut self)
        ensures
            final(self).wf(),
            final(self).pending() == Seq::<PendingInvokeView>::empty(),
            final(self).expired() == Set::<Seq<char>>::empty(),
    {
        map_clear(&mut self.map);
        self.expired = Vec::new();
        proof {
            assert(self.pending() =~= Seq::<PendingInvokeView>::empty());
            assert(self.expired() =~= Set::<Seq<char>>::empty());
        }
    }
}

/// The auto-reject delay is strictly shorter than the gateway's own
/// timeout, so the rejection of an invocation that still waits reaches the
/// gateway before the gateway gives the invocation up.
pub proof fn lemma_auto_reject_precedes_gateway_timeout()
    ensures
        INVOKE_AUTO_REJECT_SECS < GATEWAY_INVOKE_TIMEOUT_SECS,
        forall|arrival: nat| #[trigger]
            auto_reject_at(arrival) < gateway_gives_up_at(arrival),
{
}

/// The second at which the timer of an invocation fires that arrived at
/// the second `arrival`.
pub open spec fn auto_reject_at(arrival: nat) -> nat {
    (arrival + INVOKE_AUTO_REJECT_SECS) as nat
}

/// The second at which the gateway gives up an invocation that it sent at
/// the second `arrival`.
pub open spec fn gateway_gives_up_at(arrival: nat) -> nat {
    (arrival + GATEWAY_INVOKE_TIMEOUT_SECS) as nat
}

/// A queue never grows beyond its capacity: whatever waited, after the
/// evictions that an insertion asks for and the insertion itself at most
/// [`MAX_PENDING_INVOKES`] invocations wait. Into a full queue exactly the
/// oldest invocation makes room; into any other none does.
pub proof fn lemma_capacity(waited: Seq<PendingInvokeView>, invoke: PendingInvokeView)
    requires
        waited.len() <= MAX_PENDING_INVOKES,
    ensures
        waited.skip(evict_count(waited.len()) as int).push(invoke).len() <= MAX_PENDING_INVOKES,
        waited.len() == MAX_PENDING_INVOKES ==> evict_count(waited.len()) == 1 && dropped_of(
            waited.take(1),
        ) == seq![(waited[0].id, waited[0].node_id)],
        waited.len() < MAX_PENDING_INVOKES ==> evict_count(waited.len()) == 0 && waited.skip(
            0,
        ).push(invoke) == waited.push(invoke),
{
    if waited.len() == MAX_PENDING_INVOKES {
        assert(dropped_of(waited.take(1)) =~= seq![(waited[0].id, waited[0].node_id)]);
    } else {
        assert(waited.skip(0) =~= waited);
    }
}

/// An invocation that was inserted waits: a second submission of its
/// identifier finds it and is absorbed.
pub proof fn lemma_inserted_waits(waited: Seq<PendingInvokeView>, invoke: PendingInvokeView)
    requires
        waited.len() <= MAX_PENDING_INVOKES,
    ensures
        position(waited.skip(evict_count(waited.len()) as int).push(invoke), invoke.id) is Some,
{
    let after = waited.skip(evict_count(waited.len()) as int).push(invoke);
    assert(after[after.len() - 1].id == invoke.id);
}

/// An invocation that was taken out of a queue no longer waits in it: a
/// timer that fires afterwards finds nothing to reject.
pub proof fn lemma_taken_is_gone(waited: Seq<PendingInvokeView>, id: Seq<char>)
    requires
        distinct_ids(waited),
        position(waited, id) is Some,
    ensures
        position(waited.remove(position(waited, id)->0), id) is None,
{
    let at = position(waited, id)->0;
    let after = waited.remove(at);
    if position(after, id) is Some {
        let j = position(after, id)->0;
        let j0 = if j < at { j } else { j + 1 };
        assert(after[j] == waited[j0]);
        if j0 < at {
            assert(waited[j0].id != waited[at].id);
        } else {
            assert(waited[at].id != waited[j0].id);
        }
    }
}

impl InvokeStore {
    /// Submitting an identifier twice surfaces it once: after an invocation
    /// was handed in, handing in another with the same identifier is
    /// absorbed, evicts nothing and changes nothing.
    pub proof fn lemma_duplicate_absorbed(
        self,
        first: InvokeStore,
        second: InvokeStore,
        invoke: PendingInvokeView,
        again: PendingInvokeView,
        out_first: InsertOutcome,
        out_second: InsertOutcome,
    )
        requires
            self.wf(),
            first.inserted(&self, invoke, out_first),
            again.id == invoke.id,
            second.inserted(&first, again, out_second),
        ensures
            out_second is Duplicate,
            second.pending() == first.pending(),
            second.expired() == first.expired(),
    {
        if !self.contains(invoke.id) {
            lemma_inserted_waits(self.pending(), invoke);
        }
    }

    /// Into a full queue a new invocation enters at the cost of exactly the
    /// oldest one, and the queue stays full; into any other queue it enters
    /// at no cost.
    pub proof fn lemma_full_queue_evicts_oldest(
        self,
        after: InvokeStore,
        invoke: PendingInvokeView,
        out: InsertOutcome,
    )
        requires
            self.wf(),
            !self.contains(invoke.id),
            after.inserted(&self, invoke, out),
        ensures
            out is Inserted,
            after.pending().len() <= MAX_PENDING_INVOKES,
            self.pending().len() == MAX_PENDING_INVOKES ==> {
                &&& out->evicted@.len() == 1
                &&& out->evicted@[0].id@ == self.pending()[0].id
                &&& out->evicted@[0].node_id@ == self.pending()[0].node_id
                &&& after.pending() == self.pending().skip(1).push(invoke)
                &&& after.pending().len() == MAX_PENDING_INVOKES
            },
            self.pending().len() < MAX_PENDING_INVOKES ==> {
                &&& out->evicted@.len() == 0
                &&& after.pending() == self.pending().push(invoke)
            },
    {
        lemma_capacity(self.pending(), invoke);
        let k = evict_count(self.pending().len()) as int;
        assert(dropped_view(out->evicted@).len() == out->evicted@.len());
        assert(dropped_of(self.pending().take(k)).len() == k);
        if self.pending().len() == MAX_PENDING_INVOKES {
            assert(dropped_view(out->evicted@)[0] == (
                out->evicted@[0].id@,
                out->evicted@[0].node_id@,
            ));
            assert(dropped_of(self.pending().take(1))[0] == (
                self.pending()[0].id,
                self.pending()[0].node_id,
            ));
        }
    }

    /// An invocation that was marked by its timer and is taken afterwards
    /// is reported as expired.
    pub proof fn lemma_late_resolution(
        self,
        marked: InvokeStore,
        resolved: InvokeStore,
        id: Seq<char>,
        still_pending: bool,
        r: Option<(PendingInvoke, bool)>,
    )
        requires
            self.wf(),
            self.contains(id),
            marked.marked(&self, id, still_pending),
            resolved.taken(&marked, id, r),
        ensures
            still_pending,
            r matches Some(pair) && pair.1 && pair.0@.id == id,
    {
        let i = position(self.pending(), id)->0;
        assert(self.pending()[i].id == id);
    }

    /// An invocation that is taken before its timer fires is reported as
    /// not expired, and the timer then finds nothing: it marks nothing and
    /// changes nothing.
    pub proof fn lemma_early_resolution(
        self,
        waiting: InvokeStore,
        resolved: InvokeStore,
        fired: InvokeStore,
        invoke: PendingInvokeView,
        out: InsertOutcome,
        r: Option<(PendingInvoke, bool)>,
        still_pending: bool,
    )
        requires
            self.wf(),
            !self.contains(invoke.id),
            waiting.inserted(&self, invoke, out),
            waiting.wf(),
            resolved.taken(&waiting, invoke.id, r),
            fired.marked(&resolved, invoke.id, still_pending),
        ensures
            r matches Some(pair) && !pair.1 && pair.0@ == invoke,
            !still_pending,
            fired.pending() == resolved.pending(),
            fired.expired() == resolved.expired(),
    {
        lemma_inserted_waits(self.pending(), invoke);
        let queue = waiting.pending();
        let last = queue.len() - 1;
        assert(queue[last] == invoke);
        lemma_position(queue, last);
        if waiting.expired().contains(invoke.id) {
            assert(self.expired().contains(invoke.id));
        }
        lemma_taken_is_gone(queue, invoke.id);
    }
}

} // verus!
