//! The state of one live connection and the correlation of its requests.
//!
//! A session numbers its requests, remembers who waits for which reply, and
//! keeps the challenge that the gateway sent until the handshake takes it.
//! The transport's send half and the completion slots are values of the
//! caller's choosing: the session owns them and never looks inside.

use crate::frame::{make_request_id, request_id};
use crate::text::{lemma_decimal_injective, str_eq};
use vstd::prelude::*;
use vstd::string::*;

verus! {

/// One live connection.
pub struct Session<T, S> {
    tx: T,
    req_counter: u64,
    waiting: Vec<(u64, S)>,
    challenge_nonce: Option<String>,
    node_id: String,
}

/// The view of an optional string.
pub open spec fn opt_str_view(s: Option<String>) -> Option<Seq<char>> {
    match s {
        Some(t) => Some(t@),
        None => None,
    }
}

/// Requests with different numbers have different identifiers.
pub proof fn lemma_request_id_injective(a: nat, b: nat)
    requires
        request_id(a) == request_id(b),
    ensures
        a == b,
{
    assert(request_id(a).subrange(1, request_id(a).len() as int) =~= crate::text::decimal(a));
    assert(request_id(b).subrange(1, request_id(b).len() as int) =~= crate::text::decimal(b));
    lemma_decimal_injective(a, b);
}

/// Whether every awaited request has a number from 1 to `counter`, and no
/// number occurs twice.
pub open spec fn waiting_wf<S>(waiting: Seq<(u64, S)>, counter: nat) -> bool {
    &&& forall|i: int| 0 <= i < waiting.len() ==> 1 <= (#[trigger] waiting[i]).0 <= counter
    &&& forall|i: int, j: int|
        0 <= i < j < waiting.len() ==> (#[trigger] waiting[i]).0 != (#[trigger] waiting[j]).0
}

proof fn lemma_remove_keeps_wf<S>(waiting: Seq<(u64, S)>, at: int, counter: nat)
    requires
        waiting_wf(waiting, counter),
        0 <= at < waiting.len(),
    ensures
        waiting_wf(waiting.remove(at), counter),
{
    let after = waiting.remove(at);
    assert forall|i: int| 0 <= i < after.len() implies 1 <= (#[trigger] after[i]).0 <= counter by {
        let i0 = if i < at { i } else { i + 1 };
        assert(after[i] == waiting[i0]);
    }
    assert forall|i: int, j: int| 0 <= i < j < after.len() implies (#[trigger] after[i]).0
        != (#[trigger] after[j]).0 by {
        let i0 = if i < at { i } else { i + 1 };
        let j0 = if j < at { j } else { j + 1 };
        assert(after[i] == waiting[i0]);
        assert(after[j] == waiting[j0]);
    }
}

proof fn lemma_counter_keeps_wf<S>(waiting: Seq<(u64, S)>, counter: nat, more: nat)
    requires
        waiting_wf(waiting, counter),
        counter <= more,
    ensures
        waiting_wf(waiting, more),
{
    assert forall|i: int| 0 <= i < waiting.len() implies 1 <= (#[trigger] waiting[i]).0 <= more by {
        assert(1 <= waiting[i].0 <= counter);
    }
}

impl<T, S> Session<T, S> {
    /// The transport's send half.
    pub closed spec fn transport(&self) -> T {
        self.tx
    }

    /// The number of the request sent last; 0 before the first.
    pub closed spec fn counter(&self) -> nat {
        self.req_counter as nat
    }

    /// The requests whose reply is awaited, in the order they were sent:
    /// each with its number and the completion slot of its caller.
    pub closed spec fn waiting(&self) -> Seq<(u64, S)> {
        self.waiting@
    }

    /// The challenge that arrived and was not yet taken.
    pub closed spec fn nonce(&self) -> Option<Seq<char>> {
        opt_str_view(self.challenge_nonce)
    }

    /// The identifier that this node found for itself.
    pub closed spec fn node_id(&self) -> Seq<char> {
        self.node_id@
    }

    /// The invariant of a session: every awaited request was sent, and none
    /// is awaited twice.
    pub open spec fn wf(&self) -> bool {
        waiting_wf(self.waiting(), self.counter())
    }

    /// A fresh session over an open transport: no request sent, none
    /// awaited, no challenge seen.
    pub fn new(tx: T, node_id: String) -> (s: Session<T, S>)
        ensures
            s.wf(),
            s.transport() == tx,
            s.counter() == 0,
            s.waiting() == Seq::<(u64, S)>::empty(),
            s.nonce() is None,
            s.node_id() == node_id@,
    {
        Session { tx, req_counter: 0, waiting: Vec::new(), challenge_nonce: None, node_id }
    }

    /// The identifier that this node found for itself.
    pub fn local_node_id(&self) -> (id: &String)
        ensures
            id@ == self.node_id(),
    {
        &self.node_id
    }

    /// The transport's send half.
    pub fn tx(&self) -> (tx: &T)
        ensures
            *tx == self.transport(),
    {
        &self.tx
    }

    /// Ends the session and releases the transport's send half. The
    /// completion slots are dropped with the session.
    pub fn into_transport(self) -> (tx: T)
        ensures
            tx == self.transport(),
    {
        self.tx
    }

    /// The number of the request sent last; 0 before the first.
    pub fn request_count(&self) -> (n: u64)
        ensures
            n == self.counter(),
    {
        self.req_counter
    }

    /// The number of requests whose reply is awaited.
    pub fn waiting_len(&self) -> (n: usize)
        ensures
            n == self.waiting().len(),
    {
        self.waiting.len()
    }

    /// Takes the next request number and writes its identifier.
    pub fn next_id(&mut self) -> (id: String)
        requires
            old(self).wf(),
            old(self).counter() < u64::MAX,
        ensures
            final(self).wf(),
            final(self).counter() == old(self).counter() + 1,
            id@ == request_id(final(self).counter()),
            final(self).waiting() == old(self).waiting(),
            final(self).nonce() == old(self).nonce(),
            final(self).node_id() == old(self).node_id(),
            final(self).transport() == old(self).transport(),
    {
        self.req_counter = self.req_counter + 1;
        proof {
            assert(self.waiting() == old(self).waiting());
            lemma_counter_keeps_wf(self.waiting(), old(self).counter(), self.counter());
        }
        make_request_id(self.req_counter)
    }

    /// Takes the next request number, files `slot` under it as awaiting the
    /// reply, and gives the number with its identifier.
    pub fn register(&mut self, slot: S) -> (r: (u64, String))
        requires
            old(self).wf(),
            old(self).counter() < u64::MAX,
        ensures
            final(self).wf(),
            final(self).counter() == old(self).counter() + 1,
            r.0 == final(self).counter(),
            r.1@ == request_id(final(self).counter()),
            final(self).waiting() == old(self).waiting().push((r.0, slot)),
            final(self).nonce() == old(self).nonce(),
            final(self).node_id() == old(self).node_id(),
            final(self).transport() == old(self).transport(),
    {
        self.req_counter = self.req_counter + 1;
        let key = self.req_counter;
        self.waiting.push((key, slot));
        proof {
            let before = old(self).waiting();
            assert(self.waiting() == before.push((key, slot)));
            assert forall|i: int, j: int| 0 <= i < j < self.waiting().len() implies (#[trigger] self.waiting()[i]).0
                != (#[trigger] self.waiting()[j]).0 by {
                if j < before.len() {
                    assert(before[i].0 != before[j].0);
                } else {
                    assert(before[i].0 <= old(self).counter());
                }
            }
            assert forall|i: int| 0 <= i < self.waiting().len() implies 1 <= (#[trigger] self.waiting()[i]).0
                <= self.counter() by {
                if i < before.len() {
                    assert(1 <= before[i].0 <= old(self).counter());
                }
            }
        }
        (key, make_request_id(key))
    }

    /// Stops awaiting the reply to request `key` and gives back its slot;
    /// `None`, and no change, where that request is not awaited.
    pub fn cancel(&mut self, key: u64) -> (r: Option<S>)
        requires
            old(self).wf(),
        ensures
            final(self).wf(),
            final(self).counter() == old(self).counter(),
            final(self).nonce() == old(self).nonce(),
            final(self).node_id() == old(self).node_id(),
            final(self).transport() == old(self).transport(),
            match r {
                Some(slot) => exists|i: int|
                    0 <= i < old(self).waiting().len() && (#[trigger] old(self).waiting()[i]) == (
                        key,
                        slot,
                    ) && final(self).waiting() == old(self).waiting().remove(i),
                None => final(self).waiting() == old(self).waiting() && forall|i: int|
                    0 <= i < old(self).waiting().len() ==> (#[trigger] old(self).waiting()[i]).0
                        != key,
            },
    {
        let mut i: usize = 0;
        while i < self.waiting.len()
            invariant
                i <= self.waiting.len(),
                *self == *old(self),
                old(self).wf(),
                forall|k: int| 0 <= k < i ==> (#[trigger] self.waiting()[k]).0 != key,
            decreases self.waiting.len() - i,
        {
            if self.waiting[i].0 == key {
                let pair = self.waiting.remove(i);
                proof {
                    let before = old(self).waiting();
                    assert(before[i as int] == (key, pair.1));
                    assert(self.waiting() == before.remove(i as int));
                    lemma_remove_keeps_wf(before, i as int, self.counter());
                }
                return Some(pair.1);
            }
            i = i + 1;
        }
        None
    }

    /// Finds the request that a reply with identifier `id` answers, stops
    /// awaiting it and gives its slot; `None`, and no change, where no
    /// awaited request has that identifier.
    pub fn resolve(&mut self, id: &str) -> (r: Option<S>)
        requires
            old(self).wf(),
        ensures
            final(self).wf(),
            final(self).counter() == old(self).counter(),
            final(self).nonce() == old(self).nonce(),
            final(self).node_id() == old(self).node_id(),
            final(self).transport() == old(self).transport(),
            match r {
                Some(slot) => exists|i: int|
                    0 <= i < old(self).waiting().len() && request_id(
                        (#[trigger] old(self).waiting()[i]).0 as nat,
                    ) == id@ && old(self).waiting()[i].1 == slot && final(self).waiting() == old(
                        self,
                    ).waiting().remove(i),
                None => final(self).waiting() == old(self).waiting() && forall|i: int|
                    0 <= i < old(self).waiting().len() ==> request_id(
                        (#[trigger] old(self).waiting()[i]).0 as nat,
                    ) != id@,
            },
    {
        let mut i: usize = 0;
        while i < self.waiting.len()
            invariant
                i <= self.waiting.len(),
                *self == *old(self),
                old(self).wf(),
                forall|k: int|
                    0 <= k < i ==> request_id((#[trigger] self.waiting()[k]).0 as nat) != id@,
            decreases self.waiting.len() - i,
        {
            let candidate = make_request_id(self.waiting[i].0);
            if str_eq(candidate.as_str(), id) {
                let pair = self.waiting.remove(i);
                proof {
                    let before = old(self).waiting();
                    assert(request_id(before[i as int].0 as nat) == id@);
                    assert(self.waiting() == before.remove(i as int));
                    lemma_remove_keeps_wf(before, i as int, self.counter());
                }
                return Some(pair.1);
            }
            i = i + 1;
        }
        None
    }

    /// Keeps the challenge that the gateway sent, in place of any earlier one.
    pub fn store_nonce(&mut self, nonce: String)
        ensures
            final(self).nonce() == Some(nonce@),
            final(self).counter() == old(self).counter(),
            final(self).waiting() == old(self).waiting(),
            final(self).node_id() == old(self).node_id(),
            final(self).transport() == old(self).transport(),
    {
        self.challenge_nonce = Some(nonce);
    }

    /// Takes the challenge, if one arrived; none is left behind.
    pub fn take_nonce(&mut self) -> (r: Option<String>)
        ensures
            opt_str_view(r) == old(self).nonce(),
            final(self).nonce() is None,
            final(self).counter() == old(self).counter(),
            final(self).waiting() == old(self).waiting(),
            final(self).node_id() == old(self).node_id(),
            final(self).transport() == old(self).transport(),
    {
        self.challenge_nonce.take()
    }
}

impl<T, S> Session<T, S> {
    /// A reply answers at most one awaited request: two awaited requests
    /// with the same identifier are the same request. So whatever the order
    /// in which replies arrive, each caller gets the reply to its own
    /// request.
    pub proof fn lemma_reply_matches_one_request(self, i: int, j: int)
        requires
            self.wf(),
            0 <= i < self.waiting().len(),
            0 <= j < self.waiting().len(),
            request_id(self.waiting()[i].0 as nat) == request_id(self.waiting()[j].0 as nat),
        ensures
            i == j,
    {
        lemma_request_id_injective(self.waiting()[i].0 as nat, self.waiting()[j].0 as nat);
        if i < j {
            assert(self.waiting()[i].0 != self.waiting()[j].0);
        } else if j < i {
            assert(self.waiting()[j].0 != self.waiting()[i].0);
        }
    }

    /// The identifier of a new request differs from that of every request
    /// that is awaited.
    pub proof fn lemma_new_request_is_fresh(self, i: int)
        requires
            self.wf(),
            0 <= i < self.waiting().len(),
        ensures
            request_id(self.waiting()[i].0 as nat) != request_id(self.counter() + 1),
    {
        if request_id(self.waiting()[i].0 as nat) == request_id(self.counter() + 1) {
            lemma_request_id_injective(self.waiting()[i].0 as nat, self.counter() + 1);
        }
    }
}

} // verus!
