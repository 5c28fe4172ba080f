//! The node bridge: one connection to the gateway, its requests, and the
//! invocations that wait for the operator.
//!
//! The bridge decides; its caller does the waiting and the sending. Every
//! method takes what arrived (a frame, a fired timer, a closed transport)
//! and gives back what is to be sent, shown or armed.

use crate::frame::{
    error_params, inbound_of, invoke_payload, invoke_result_method, make_error_params,
    json_str, make_invoke_payload, make_request_text, make_result_params, read_frame,
    request_id, request_text, result_params, Inbound, InboundView,
};
use crate::handshake::GatewayCredentials;
use crate::invoke::{
    dropped_of, dropped_view, evict_count, position, Dropped, InsertOutcome, InvokeStore,
    PendingInvoke, PendingInvokeView, INVOKE_AUTO_REJECT_SECS,
};
use crate::json::{
    json_parse, json_text, lemma_object_view, members_view, parse_json, print_json, Json,
    JsonView,
};
use crate::session::Session;
use crate::text::texts;
use vstd::prelude::*;
use vstd::string::*;

verus! {

/// The error of a request made while no session exists.
pub open spec fn not_connected() -> Seq<char> {
    "Node not connected"@
}

/// The code of the rejection of an evicted invocation.
pub open spec fn evicted_code() -> Seq<char> {
    "EVICTED"@
}

/// The message of the rejection of an evicted invocation.
pub open spec fn evicted_message() -> Seq<char> {
    "Too many pending invokes, oldest evicted"@
}

/// The code of the rejection of an invocation left over from an earlier
/// session.
pub open spec fn stale_code() -> Seq<char> {
    "STALE"@
}

/// The message of the rejection of an invocation left over from an earlier
/// session.
pub open spec fn stale_message() -> Seq<char> {
    "Node reconnected, rejecting stale invoke"@
}

/// The code of the rejection of an invocation that still waits for the
/// operator.
pub open spec fn user_pending_code() -> Seq<char> {
    "USER_PENDING"@
}

/// The message of the rejection of an invocation that still waits for the
/// operator.
pub open spec fn user_pending_message() -> Seq<char> {
    "The command is awaiting user approval in ClawPal. The user may execute it shortly \u{2014} if so, the result will be provided as a follow-up message."@
}

/// The identifier of a node whose host name is not known.
pub open spec fn unknown_node_id() -> Seq<char> {
    "clawpal-unknown"@
}

/// The texts of the rejections of `dropped`, numbered as requests from
/// `first` on, each echoing the node identifier of its invocation.
pub open spec fn rejections(
    dropped: Seq<(Seq<char>, Seq<char>)>,
    first: nat,
    code: Seq<char>,
    message: Seq<char>,
) -> Seq<Seq<char>> {
    Seq::new(
        dropped.len(),
        |i: int|
            request_text(
                request_id((first + i) as nat),
                invoke_result_method(),
                error_params(dropped[i].0, dropped[i].1, code, message),
            ),
    )
}

/// The timer to arm for a new invocation.
#[derive(Debug, Clone, PartialEq, Eq)]
pub struct InvokeTimer {
    /// The invocation to look at when the timer fires.
    pub id: String,
    /// The node identifier to echo if it is then rejected.
    pub node_id: String,
    /// The delay in seconds.
    pub delay_secs: u64,
}

/// What the caller is to do after a frame was handled.
pub enum FrameOutcome<S> {
    /// Nothing.
    Ignored,
    /// Hand the frame to the caller that waits in `slot`.
    Reply { slot: S, frame: Json },
    /// Nothing; the challenge is kept for the handshake.
    ChallengeStored,
    /// Nothing; the invocation already waits.
    Duplicate,
    /// Send the frames in `sends`, show `notify` to the operator, and arm
    /// `timer`.
    Invoke { sends: Vec<String>, notify: Json, timer: InvokeTimer },
}

/// The node bridge. `T` is the transport's send half, `S` the completion
/// slot of a caller that awaits a reply.
pub struct BridgeClient<T, S> {
    inner: Option<Session<T, S>>,
    pending_invokes: InvokeStore,
    credentials: Option<GatewayCredentials>,
}

impl<T, S> BridgeClient<T, S> {
    /// The session, while one exists.
    pub closed spec fn session(&self) -> Option<Session<T, S>> {
        self.inner
    }

    /// The invocations that wait for the operator.
    pub closed spec fn invokes(&self) -> InvokeStore {
        self.pending_invokes
    }

    /// The credentials given for the connection attempt.
    pub closed spec fn stored_credentials(&self) -> Option<GatewayCredentials> {
        self.credentials
    }

    /// The invariant of the bridge: that of its queue and of its session.
    pub open spec fn wf(&self) -> bool {
        &&& self.invokes().wf()
        &&& self.session() matches Some(s) ==> s.wf()
    }

    /// Whether `k` more requests can be numbered.
    pub open spec fn can_number(&self, k: nat) -> bool {
        self.session() matches Some(s) ==> s.counter() + k <= u64::MAX
    }

    /// A bridge without a session and without waiting invocations.
    pub fn new() -> (b: BridgeClient<T, S>)
        ensures
            b.wf(),
            b.session() is None,
            b.invokes().pending() == Seq::<PendingInvokeView>::empty(),
            b.invokes().expired() == Set::<Seq<char>>::empty(),
            b.stored_credentials() is None,
    {
        BridgeClient { inner: None, pending_invokes: InvokeStore::new(), credentials: None }
    }

    /// The transport's send half, while a session exists.
    pub fn transport(&self) -> (tx: Option<&T>)
        ensures
            match tx {
                Some(t) => self.session() is Some && *t == self.session()->0.transport(),
                None => self.session() is None,
            },
    {
        match &self.inner {
            Some(s) => Some(s.tx()),
            None => None,
        }
    }

    /// The number of the request sent last, while a session exists.
    pub fn request_count(&self) -> (n: Option<u64>)
        ensures
            match n {
                Some(c) => self.session() is Some && c == self.session()->0.counter(),
                None => self.session() is None,
            },
    {
        match &self.inner {
            Some(s) => Some(s.request_count()),
            None => None,
        }
    }

    /// The number of requests whose reply is awaited.
    pub fn waiting_count(&self) -> (n: usize)
        ensures
            n == match self.session() {
                Some(s) => s.waiting().len(),
                None => 0,
            },
    {
        match &self.inner {
            Some(s) => s.waiting_len(),
            None => 0,
        }
    }

    /// The number of invocations that wait for the operator.
    pub fn pending_count(&self) -> (n: usize)
        ensures
            n == self.invokes().pending().len(),
    {
        self.pending_invokes.len()
    }

    /// Whether the invocation `id` waits for the operator.
    pub fn is_pending(&self, id: &str) -> (b: bool)
        requires
            self.wf(),
        ensures
            b == self.invokes().contains(id@),
    {
        self.pending_invokes.contains_id(id)
    }

    /// Whether the invocation `id` is marked as rejected while waiting.
    pub fn is_expired(&self, id: &str) -> (b: bool)
        ensures
            b == self.invokes().expired().contains(id@),
    {
        self.pending_invokes.is_marked(id)
    }

    /// Whether `k` more requests can be numbered.
    pub fn has_room_for(&self, k: usize) -> (b: bool)
        ensures
            b == self.can_number(k as nat),
    {
        match &self.inner {
            Some(s) => {
                let used = s.request_count();
                k as u64 <= u64::MAX - used
            },
            None => true,
        }
    }

    /// The credentials given for the connection attempt.
    pub fn credentials(&self) -> (creds: Option<&GatewayCredentials>)
        ensures
            match creds {
                Some(c) => self.stored_credentials() == Some(*c),
                None => self.stored_credentials() is None,
            },
    {
        match &self.credentials {
            Some(c) => Some(c),
            None => None,
        }
    }

    /// Whether a session exists.
    pub fn is_connected(&self) -> (b: bool)
        ensures
            b == self.session() is Some,
    {
        self.inner.is_some()
    }

    /// The identifier that this node found for itself, while a session exists.
    pub fn node_id(&self) -> (id: Option<String>)
        ensures
            match id {
                Some(s) => self.session() is Some && s@ == self.session()->0.node_id(),
                None => self.session() is None,
            },
    {
        match &self.inner {
            Some(s) => Some(s.local_node_id().clone()),
            None => None,
        }
    }

    /// Ends the session, if there is one, and forgets every waiting
    /// invocation and every mark. The ended session is handed out so that its
    /// transport can be closed; dropping it drops the completion slots.
    pub fn disconnect(&mut self) -> (ended: Option<Session<T, S>>)
        ensures
            final(self).wf(),
            ended == old(self).session(),
            final(self).disconnected(old(self)),
    {
        let ended = self.inner.take();
        self.pending_invokes.clear();
        ended
    }

    /// Takes the invocation `id` out of the queue for the operator's
    /// decision. The flag says whether it was already rejected as still
    /// waiting: its result is then of no use on the result path.
    pub fn take_invoke(&mut self, id: &str) -> (r: Option<(PendingInvoke, bool)>)
        requires
            old(self).wf(),
        ensures
            final(self).wf(),
            final(self).session() == old(self).session(),
            final(self).stored_credentials() == old(self).stored_credentials(),
            final(self).invokes().taken(&old(self).invokes(), id@, r),
    {
        self.pending_invokes.take(id)
    }
}

/// Whether `after` is `before` with `k` more requests numbered and nothing
/// else changed.
pub open spec fn numbered<T, S>(before: Session<T, S>, after: Session<T, S>, k: nat) -> bool {
    &&& after.counter() == before.counter() + k
    &&& after.waiting() == before.waiting()
    &&& after.nonce() == before.nonce()
    &&& after.node_id() == before.node_id()
    &&& after.transport() == before.transport()
}

impl<T, S> BridgeClient<T, S> {
    /// Whether the queue and the credentials are those of `before`.
    pub open spec fn same_queue(&self, before: &Self) -> bool {
        &&& self.invokes().pending() == before.invokes().pending()
        &&& self.invokes().expired() == before.invokes().expired()
        &&& self.stored_credentials() == before.stored_credentials()
    }

    /// Numbers a request and writes its frame; no reply is awaited. Fails
    /// while no session exists.
    pub fn send_request_fire(&mut self, method: &str, params: Json) -> (r: Result<String, String>)
        requires
            old(self).wf(),
            old(self).can_number(1),
        ensures
            final(self).wf(),
            final(self).same_queue(old(self)),
            match r {
                Ok(text) => old(self).session() is Some && final(self).session() is Some
                    && numbered(old(self).session()->0, final(self).session()->0, 1) && text@
                    == request_text(
                    request_id(old(self).session()->0.counter() + 1),
                    method@,
                    params@,
                ),
                Err(e) => old(self).session() is None && final(self).session() is None && e@
                    == not_connected(),
            },
    {
        match &mut self.inner {
            Some(session) => {
                let id = session.next_id();
                Ok(make_request_text(id.as_str(), method, params))
            },
            None => Err(String::from_str("Node not connected")),
        }
    }

    /// Writes the frame that reports the success of an invocation, echoing
    /// the node identifier that the gateway used in its request.
    pub fn send_invoke_result(&mut self, invoke_id: &str, node_id: &str, result: Json) -> (r:
        Result<String, String>)
        requires
            old(self).wf(),
            old(self).can_number(1),
        ensures
            final(self).wf(),
            final(self).same_queue(old(self)),
            match r {
                Ok(text) => old(self).session() is Some && final(self).session() is Some
                    && numbered(old(self).session()->0, final(self).session()->0, 1) && text@
                    == request_text(
                    request_id(old(self).session()->0.counter() + 1),
                    invoke_result_method(),
                    result_params(invoke_id@, node_id@, result@),
                ),
                Err(e) => old(self).session() is None && final(self).session() is None && e@
                    == not_connected(),
            },
    {
        let params = make_result_params(invoke_id, node_id, result);
        self.send_request_fire("node.invoke.result", params)
    }

    /// Writes the frame that reports the failure of an invocation, echoing
    /// the node identifier that the gateway used in its request.
    pub fn send_invoke_error(
        &mut self,
        invoke_id: &str,
        node_id: &str,
        code: &str,
        message: &str,
    ) -> (r: Result<String, String>)
        requires
            old(self).wf(),
            old(self).can_number(1),
        ensures
            final(self).wf(),
            final(self).same_queue(old(self)),
            match r {
                Ok(text) => old(self).session() is Some && final(self).session() is Some
                    && numbered(old(self).session()->0, final(self).session()->0, 1) && text@
                    == request_text(
                    request_id(old(self).session()->0.counter() + 1),
                    invoke_result_method(),
                    error_params(invoke_id@, node_id@, code@, message@),
                ),
                Err(e) => old(self).session() is None && final(self).session() is None && e@
                    == not_connected(),
            },
    {
        let params = make_error_params(invoke_id, node_id, code, message);
        self.send_request_fire("node.invoke.result", params)
    }
}

impl<T, S> BridgeClient<T, S> {
    /// Writes one rejection for each invocation of `dropped`, in order, each
    /// under a request number of its own; none while no session exists.
    pub fn reject_all(&mut self, dropped: &Vec<Dropped>, code: &str, message: &str) -> (sends: Vec<
        String,
    >)
        requires
            old(self).wf(),
            old(self).can_number(dropped@.len()),
        ensures
            final(self).wf(),
            final(self).same_queue(old(self)),
            match old(self).session() {
                None => final(self).session() is None && sends@.len() == 0,
                Some(s) => final(self).session() is Some && numbered(
                    s,
                    final(self).session()->0,
                    dropped@.len(),
                ) && texts(sends@) == rejections(
                    dropped_view(dropped@),
                    s.counter() + 1,
                    code@,
                    message@,
                ),
            },
    {
        let mut sends: Vec<String> = Vec::new();
        if !self.is_connected() {
            return sends;
        }
        let ghost start = old(self).session()->0;
        let ghost all = rejections(dropped_view(dropped@), start.counter() + 1, code@, message@);
        let mut i: usize = 0;
        while i < dropped.len()
            invariant
                i <= dropped.len(),
                self.wf(),
                self.same_queue(old(self)),
                old(self).session() == Some(start),
                start.counter() + dropped@.len() <= u64::MAX,
                self.session() is Some,
                numbered(start, self.session()->0, i as nat),
                all == rejections(dropped_view(dropped@), start.counter() + 1, code@, message@),
                sends@.len() == i,
                forall|k: int| 0 <= k < i ==> (#[trigger] sends@[k])@ == all[k],
            decreases dropped.len() - i,
        {
            let item = &dropped[i];
            match self.send_invoke_error(item.id.as_str(), item.node_id.as_str(), code, message) {
                Ok(text) => {
                    proof {
                        assert(dropped_view(dropped@)[i as int] == (item.id@, item.node_id@));
                        assert(text@ == all[i as int]);
                    }
                    sends.push(text);
                },
                Err(_) => {
                    assert(false);
                },
            }
            i = i + 1;
        }
        proof {
            assert(texts(sends@) =~= all);
        }
        sends
    }
}

/// Whether two optional sessions are both absent, or both present and alike
/// in everything a caller can observe.
pub open spec fn same_session<T, S>(a: Option<Session<T, S>>, b: Option<Session<T, S>>) -> bool {
    match (a, b) {
        (None, None) => true,
        (Some(s), Some(t)) => numbered(s, t, 0),
        _ => false,
    }
}

impl<T, S> BridgeClient<T, S> {
    /// Whether the bridge is as it was in `before`.
    pub open spec fn unchanged(&self, before: &Self) -> bool {
        self.same_queue(before) && same_session(before.session(), self.session())
    }

    /// What handling a response with identifier `id` does: the caller that
    /// awaits the request of that identifier gets the frame and waits no
    /// longer; a response that nobody awaits changes nothing.
    pub open spec fn response_handled(
        &self,
        before: &Self,
        id: Seq<char>,
        frame: JsonView,
        out: FrameOutcome<S>,
    ) -> bool {
        &&& self.same_queue(before)
        &&& match before.session() {
            None => out is Ignored && self.session() is None,
            Some(s) => self.session() is Some && {
                let t = self.session()->0;
                &&& t.counter() == s.counter()
                &&& t.nonce() == s.nonce()
                &&& t.node_id() == s.node_id()
                &&& t.transport() == s.transport()
                &&& match out {
                    FrameOutcome::Reply { slot, frame: delivered } => delivered@ == frame
                        && exists|i: int|
                        0 <= i < s.waiting().len() && request_id(
                            (#[trigger] s.waiting()[i]).0 as nat,
                        ) == id && s.waiting()[i].1 == slot && t.waiting() == s.waiting().remove(
                            i,
                        ),
                    FrameOutcome::Ignored => t.waiting() == s.waiting() && forall|i: int|
                        0 <= i < s.waiting().len() ==> request_id(
                            (#[trigger] s.waiting()[i]).0 as nat,
                        ) != id,
                    _ => false,
                }
            },
        }
    }

    /// What handling a challenge does: the session keeps the nonce.
    pub open spec fn challenge_handled(
        &self,
        before: &Self,
        nonce: Seq<char>,
        out: FrameOutcome<S>,
    ) -> bool {
        &&& self.same_queue(before)
        &&& match before.session() {
            None => out is Ignored && self.session() is None,
            Some(s) => out is ChallengeStored && self.session() is Some && {
                let t = self.session()->0;
                &&& t.nonce() == Some(nonce)
                &&& t.counter() == s.counter()
                &&& t.waiting() == s.waiting()
                &&& t.node_id() == s.node_id()
                &&& t.transport() == s.transport()
            },
        }
    }

    /// What handling an invocation request does. A request whose identifier
    /// already waits is absorbed. Otherwise the oldest invocations make room
    /// while the queue is full, each with an `EVICTED` rejection to send if
    /// a session exists; the new one goes last, is shown to the operator,
    /// and gets a timer of [`INVOKE_AUTO_REJECT_SECS`] seconds.
    pub open spec fn invoke_handled(
        &self,
        before: &Self,
        invoke: PendingInvokeView,
        out: FrameOutcome<S>,
    ) -> bool {
        &&& self.stored_credentials() == before.stored_credentials()
        &&& if before.invokes().contains(invoke.id) {
            out is Duplicate && self.unchanged(before)
        } else {
            let waited = before.invokes().pending();
            let k = evict_count(waited.len()) as int;
            &&& out is Invoke
            &&& out->notify@ == invoke_payload(invoke)
            &&& out->timer.id@ == invoke.id
            &&& out->timer.node_id@ == invoke.node_id
            &&& out->timer.delay_secs == INVOKE_AUTO_REJECT_SECS
            &&& self.invokes().pending() == waited.skip(k).push(invoke)
            &&& self.invokes().expired() == before.invokes().expired().difference(
                Set::new(|id: Seq<char>| position(waited.take(k), id) is Some),
            )
            &&& match before.session() {
                None => self.session() is None && out->sends@.len() == 0,
                Some(s) => self.session() is Some && numbered(s, self.session()->0, k as nat)
                    && texts(out->sends@) == rejections(
                    dropped_of(waited.take(k)),
                    s.counter() + 1,
                    evicted_code(),
                    evicted_message(),
                ),
            }
        }
    }

    /// What handling a frame does, by what the frame is.
    pub open spec fn handled(&self, before: &Self, frame: JsonView, out: FrameOutcome<S>) -> bool {
        match inbound_of(frame) {
            InboundView::Other => out is Ignored && self.unchanged(before),
            InboundView::Response { id } => self.response_handled(before, id, frame, out),
            InboundView::Challenge { nonce } => self.challenge_handled(before, nonce, out),
            InboundView::Invoke(invoke) => self.invoke_handled(before, invoke, out),
        }
    }

    /// Handles one frame that arrived from the gateway.
    pub fn handle_frame(&mut self, frame: &Json) -> (out: FrameOutcome<S>)
        requires
            old(self).wf(),
            old(self).can_number(1),
        ensures
            final(self).wf(),
            final(self).handled(old(self), frame@, out),
    {
        match read_frame(frame) {
            Inbound::Other => FrameOutcome::Ignored,
            Inbound::Response { id } => match &mut self.inner {
                Some(session) => match session.resolve(id.as_str()) {
                    Some(slot) => FrameOutcome::Reply { slot, frame: frame.deep_clone() },
                    None => FrameOutcome::Ignored,
                },
                None => FrameOutcome::Ignored,
            },
            Inbound::Challenge { nonce } => match &mut self.inner {
                Some(session) => {
                    session.store_nonce(nonce);
                    FrameOutcome::ChallengeStored
                },
                None => FrameOutcome::Ignored,
            },
            Inbound::Invoke(invoke) => {
                let notify = make_invoke_payload(&invoke);
                let timer = InvokeTimer {
                    id: invoke.id.clone(),
                    node_id: invoke.node_id.clone(),
                    delay_secs: INVOKE_AUTO_REJECT_SECS,
                };
                match self.pending_invokes.insert(invoke) {
                    InsertOutcome::Duplicate => FrameOutcome::Duplicate,
                    InsertOutcome::Inserted { evicted } => {
                        proof {
                            let waited = old(self).invokes().pending();
                            let k = evict_count(waited.len()) as int;
                            assert(dropped_view(evicted@).len() == evicted@.len());
                            assert(dropped_of(waited.take(k)).len() == k);
                        }
                        let sends = self.reject_all(
                            &evicted,
                            "EVICTED",
                            "Too many pending invokes, oldest evicted",
                        );
                        FrameOutcome::Invoke { sends, notify, timer }
                    },
                }
            },
        }
    }
}

/// Asks the system for its host name with `hostname::get`, and gives its
/// text; `None` where the call reports an error. The result depends on the
/// machine, so nothing is claimed of it.
#[verifier::external_body]
pub(crate) fn system_host_name() -> Option<String> {
    hostname::get().ok().map(|name| name.to_string_lossy().into_owned())
}

/// The identifier of this node: its host name, or a fixed name where the
/// host name is not known.
pub open spec fn node_id_for(host: Option<Seq<char>>) -> Seq<char> {
    match host {
        Some(name) => name,
        None => unknown_node_id(),
    }
}

/// Chooses the identifier of this node from its host name.
pub fn choose_node_id(host: Option<String>) -> (id: String)
    ensures
        id@ == node_id_for(crate::session::opt_str_view(host)),
{
    match host {
        Some(name) => name,
        None => String::from_str("clawpal-unknown"),
    }
}

impl<T, S> BridgeClient<T, S> {
    /// What handling a text frame does: a text that is no JSON is
    /// discarded, anything else is handled as the frame it parses to.
    pub open spec fn text_handled(&self, before: &Self, text: Seq<char>, out: FrameOutcome<S>) -> bool {
        match json_parse(text) {
            Ok(frame) => self.handled(before, frame, out),
            Err(_) => out is Ignored && self.unchanged(before),
        }
    }

    /// Handles one text frame that arrived from the gateway.
    pub fn handle_text(&mut self, text: &str) -> (out: FrameOutcome<S>)
        requires
            old(self).wf(),
            old(self).can_number(1),
        ensures
            final(self).wf(),
            final(self).text_handled(old(self), text@, out),
    {
        match parse_json(text) {
            Ok(frame) => self.handle_frame(&frame),
            Err(_) => FrameOutcome::Ignored,
        }
    }

    /// Whether `self` is `before` after a fresh session over `tx` took the
    /// place of whatever session there was: no request numbered, none
    /// awaited, no challenge seen. The queue is untouched.
    pub open spec fn connected(&self, before: &Self, tx: T, host: Option<Seq<char>>) -> bool {
        &&& self.same_queue(before)
        &&& self.session() is Some
        &&& self.session()->0.transport() == tx
        &&& self.session()->0.counter() == 0
        &&& self.session()->0.waiting() == Seq::<(u64, S)>::empty()
        &&& self.session()->0.nonce() is None
        &&& self.session()->0.node_id() == node_id_for(host)
    }

    /// Whether `self` is `before` after its session ended and its queue was
    /// emptied.
    pub open spec fn disconnected(&self, before: &Self) -> bool {
        &&& self.session() is None
        &&& self.invokes().pending() == Seq::<PendingInvokeView>::empty()
        &&& self.invokes().expired() == Set::<Seq<char>>::empty()
        &&& self.stored_credentials() == before.stored_credentials()
    }

    /// Begins a connection attempt: ends the session, if there is one,
    /// empties the queue, and keeps the credentials for the handshake. The
    /// ended session is handed out so that its transport can be closed.
    pub fn begin_connect(&mut self, creds: Option<GatewayCredentials>) -> (ended: Option<
        Session<T, S>,
    >)
        ensures
            final(self).wf(),
            ended == old(self).session(),
            final(self).session() is None,
            final(self).invokes().pending() == Seq::<PendingInvokeView>::empty(),
            final(self).invokes().expired() == Set::<Seq<char>>::empty(),
            final(self).stored_credentials() == creds,
    {
        let ended = self.disconnect();
        self.credentials = creds;
        ended
    }

    /// Installs a fresh session over an open transport, for a node with the
    /// given host name. A session that still existed is handed out.
    pub fn connect_as(&mut self, tx: T, host: Option<String>) -> (ended: Option<Session<T, S>>)
        requires
            old(self).wf(),
        ensures
            final(self).wf(),
            ended == old(self).session(),
            final(self).connected(old(self), tx, crate::session::opt_str_view(host)),
    {
        let ended = self.inner.take();
        self.inner = Some(Session::new(tx, choose_node_id(host)));
        ended
    }

    /// Installs a fresh session over an open transport, under the host name
    /// of this machine. A session that still existed is handed out.
    pub fn connect(&mut self, tx: T) -> (ended: Option<Session<T, S>>)
        requires
            old(self).wf(),
        ensures
            final(self).wf(),
            ended == old(self).session(),
            exists|host: Option<Seq<char>>| final(self).connected(old(self), tx, host),
    {
        let host = system_host_name();
        let ghost name = crate::session::opt_str_view(host);
        let ended = self.connect_as(tx, host);
        assert(self.connected(old(self), tx, name));
        ended
    }

    /// Ends the session because the transport closed or failed. The queue
    /// stays as it is.
    pub fn connection_lost(&mut self) -> (ended: Option<Session<T, S>>)
        requires
            old(self).wf(),
        ensures
            final(self).wf(),
            ended == old(self).session(),
            final(self).session() is None,
            final(self).same_queue(old(self)),
    {
        self.inner.take()
    }

    /// Takes the challenge that arrived, if a session exists and one did.
    pub fn take_challenge(&mut self) -> (nonce: Option<String>)
        requires
            old(self).wf(),
        ensures
            final(self).wf(),
            final(self).same_queue(old(self)),
            match old(self).session() {
                None => nonce is None && final(self).session() is None,
                Some(s) => crate::session::opt_str_view(nonce) == s.nonce()
                    && final(self).session() is Some && {
                    let t = final(self).session()->0;
                    &&& t.nonce() is None
                    &&& t.counter() == s.counter()
                    &&& t.waiting() == s.waiting()
                    &&& t.node_id() == s.node_id()
                    &&& t.transport() == s.transport()
                },
            },
    {
        match &mut self.inner {
            Some(session) => session.take_nonce(),
            None => None,
        }
    }
}

/// What a fired timer found.
#[derive(Debug, Clone, PartialEq, Eq)]
pub enum AutoReject {
    /// The invocation no longer waits; nothing is to be done.
    Resolved,
    /// The invocation still waits and is now marked; `send` holds its
    /// rejection where a session exists to send it on.
    Expired { send: Option<String> },
}

impl<T, S> BridgeClient<T, S> {
    /// What the firing of the timer of invocation `id` does. Where the
    /// invocation no longer waits nothing changes. Where it still waits it
    /// is marked, stays in the queue, and is rejected as `USER_PENDING`
    /// under the node identifier the timer was armed with.
    pub open spec fn auto_rejected(
        &self,
        before: &Self,
        id: Seq<char>,
        node_id: Seq<char>,
        out: AutoReject,
    ) -> bool {
        &&& self.stored_credentials() == before.stored_credentials()
        &&& self.invokes().pending() == before.invokes().pending()
        &&& if before.invokes().contains(id) {
            &&& out is Expired
            &&& self.invokes().expired() == before.invokes().expired().insert(id)
            &&& match before.session() {
                None => self.session() is None && out->send is None,
                Some(s) => self.session() is Some && numbered(s, self.session()->0, 1)
                    && out->send is Some && out->send->0@ == request_text(
                    request_id(s.counter() + 1),
                    invoke_result_method(),
                    error_params(id, node_id, user_pending_code(), user_pending_message()),
                ),
            }
        } else {
            out is Resolved && self.unchanged(before)
        }
    }

    /// Acts on the timer of invocation `id`, armed with `node_id`.
    pub fn auto_reject(&mut self, id: &str, node_id: &str) -> (out: AutoReject)
        requires
            old(self).wf(),
            old(self).can_number(1),
        ensures
            final(self).wf(),
            final(self).auto_rejected(old(self), id@, node_id@, out),
    {
        if !self.pending_invokes.mark_expired(id) {
            return AutoReject::Resolved;
        }
        let sent = self.send_invoke_error(
            id,
            node_id,
            "USER_PENDING",
            "The command is awaiting user approval in ClawPal. The user may execute it shortly \u{2014} if so, the result will be provided as a follow-up message.",
        );
        match sent {
            Ok(text) => AutoReject::Expired { send: Some(text) },
            Err(_) => AutoReject::Expired { send: None },
        }
    }

    /// What completing a connection does: every invocation that waited is
    /// rejected as `STALE`, once, oldest first, and the queue is empty.
    pub open spec fn stale_drained(&self, before: &Self, sends: Seq<String>) -> bool {
        &&& self.stored_credentials() == before.stored_credentials()
        &&& self.invokes().pending() == Seq::<PendingInvokeView>::empty()
        &&& self.invokes().expired() == Set::<Seq<char>>::empty()
        &&& match before.session() {
            None => self.session() is None && sends.len() == 0,
            Some(s) => self.session() is Some && numbered(
                s,
                self.session()->0,
                before.invokes().pending().len(),
            ) && texts(sends) == rejections(
                dropped_of(before.invokes().pending()),
                s.counter() + 1,
                stale_code(),
                stale_message(),
            ),
        }
    }

    /// Completes a connection after the handshake: the invocations that
    /// piled up before it leave the queue. Their rejections are to be sent
    /// first; the notice that announces the connection is to be shown after.
    pub fn complete_connect(&mut self) -> (done: (Vec<String>, Notice))
        requires
            old(self).wf(),
            old(self).can_number(old(self).invokes().pending().len()),
        ensures
            final(self).wf(),
            final(self).stale_drained(old(self), done.0@),
            done.1.event@ == connected_event(),
            done.1.payload@ == JsonView::Object(Seq::empty()),
    {
        let stale = self.pending_invokes.drain();
        proof {
            assert(dropped_view(stale@).len() == stale@.len());
            assert(dropped_of(old(self).invokes().pending()).len() == old(
                self,
            ).invokes().pending().len());
        }
        let sends = self.reject_all(&stale, "STALE", "Node reconnected, rejecting stale invoke");
        (sends, connected_notice())
    }

    /// Numbers a request, files `slot` as awaiting its reply, and writes its
    /// frame. The number is the handle by which the wait can be abandoned.
    /// While no session exists the slot comes back with the error.
    pub fn send_request(&mut self, method: &str, params: Json, slot: S) -> (r: Result<
        (u64, String),
        (String, S),
    >)
        requires
            old(self).wf(),
            old(self).can_number(1),
        ensures
            final(self).wf(),
            final(self).same_queue(old(self)),
            match r {
                Ok(sent) => old(self).session() is Some && final(self).session() is Some && {
                    let s = old(self).session()->0;
                    let t = final(self).session()->0;
                    &&& t.counter() == s.counter() + 1
                    &&& sent.0 == t.counter()
                    &&& sent.1@ == request_text(request_id(t.counter()), method@, params@)
                    &&& t.waiting() == s.waiting().push((sent.0, slot))
                    &&& t.nonce() == s.nonce()
                    &&& t.node_id() == s.node_id()
                    &&& t.transport() == s.transport()
                },
                Err(e) => old(self).session() is None && final(self).session() is None && e.0@
                    == not_connected() && e.1 == slot,
            },
    {
        match &mut self.inner {
            Some(session) => {
                let (key, id) = session.register(slot);
                Ok((key, make_request_text(id.as_str(), method, params)))
            },
            None => Err((String::from_str("Node not connected"), slot)),
        }
    }

    /// Stops awaiting the reply to request `key`: its frame could not be
    /// sent, or the wait ended without a reply. Gives back the slot where
    /// the request was still awaited.
    pub fn abandon_request(&mut self, key: u64) -> (r: Option<S>)
        requires
            old(self).wf(),
        ensures
            final(self).wf(),
            final(self).same_queue(old(self)),
            match old(self).session() {
                None => r is None && final(self).session() is None,
                Some(s) => final(self).session() is Some && {
                    let t = final(self).session()->0;
                    &&& t.counter() == s.counter()
                    &&& t.nonce() == s.nonce()
                    &&& t.node_id() == s.node_id()
                    &&& t.transport() == s.transport()
                    &&& match r {
                        Some(slot) => exists|i: int|
                            0 <= i < s.waiting().len() && (#[trigger] s.waiting()[i]) == (key, slot)
                                && t.waiting() == s.waiting().remove(i),
                        None => t.waiting() == s.waiting() && forall|i: int|
                            0 <= i < s.waiting().len() ==> (#[trigger] s.waiting()[i]).0 != key,
                    }
                },
            },
    {
        match &mut self.inner {
            Some(session) => session.cancel(key),
            None => None,
        }
    }
}

/// Seconds for which the reply to a request is awaited.
pub const REQUEST_TIMEOUT_SECS: u64 = 30;

/// How the wait for a reply ended.
#[derive(Debug, Clone, PartialEq, Eq)]
pub enum WaitOutcome {
    /// The reply arrived.
    Reply(Json),
    /// The completion slot was dropped: the session ended during the wait.
    Dropped,
    /// No reply arrived within [`REQUEST_TIMEOUT_SECS`] seconds.
    TimedOut,
}

/// The error of a reply that reports a failure and says why.
pub open spec fn reply_error(error: JsonView) -> Seq<char> {
    "Node connect error: "@ + json_text(error)
}

/// The error of a reply that reports a failure and gives no reason.
pub open spec fn reply_failed() -> Seq<char> {
    "Node connect failed"@
}

/// The error of a wait that ended because the session ended.
pub open spec fn connection_lost_error() -> Seq<char> {
    "Connection lost during node handshake"@
}

/// The error of a wait that ended without a reply.
pub open spec fn timed_out_error() -> Seq<char> {
    "Node handshake timed out (30s)"@
}

/// What a reply amounts to: its `payload`, `null` where it has none, if its
/// `ok` is `true`; otherwise an error, with the reply's `error` where it
/// has one.
pub open spec fn reply_result(reply: JsonView) -> Result<JsonView, Seq<char>> {
    let ok = match reply.get("ok"@) {
        Some(JsonView::Bool(b)) => b,
        _ => false,
    };
    if ok {
        match reply.get("payload"@) {
            Some(payload) => Ok(payload),
            None => Ok(JsonView::Null),
        }
    } else {
        match reply.get("error"@) {
            Some(error) => Err(reply_error(error)),
            None => Err(reply_failed()),
        }
    }
}

/// The view of the result of a request.
pub open spec fn result_view(r: Result<Json, String>) -> Result<JsonView, Seq<char>> {
    match r {
        Ok(v) => Ok(v@),
        Err(e) => Err(e@),
    }
}

/// Reads what a reply amounts to.
pub fn interpret_reply(reply: &Json) -> (r: Result<Json, String>)
    ensures
        result_view(r) == reply_result(reply@),
{
    let ok = match reply.get("ok") {
        Some(Json::Bool(b)) => *b,
        _ => false,
    };
    if ok {
        match reply.get("payload") {
            Some(payload) => Ok(payload.deep_clone()),
            None => Ok(Json::Null),
        }
    } else {
        match reply.get("error") {
            Some(error) => {
                let text = print_json(error);
                Err(String::from_str("Node connect error: ").concat(text.as_str()))
            },
            None => Err(String::from_str("Node connect failed")),
        }
    }
}

impl<T, S> BridgeClient<T, S> {
    /// Ends the wait for the reply to request `key`. A reply is read for
    /// what it amounts to and changes nothing more: its slot left the
    /// session when it was delivered. A wait that ended without a reply
    /// stops awaiting the request and fails with an error of its own.
    pub fn finish_request(&mut self, key: u64, outcome: WaitOutcome) -> (r: Result<Json, String>)
        requires
            old(self).wf(),
        ensures
            final(self).wf(),
            final(self).same_queue(old(self)),
            match outcome {
                WaitOutcome::Reply(reply) => result_view(r) == reply_result(reply@)
                    && final(self).unchanged(old(self)),
                WaitOutcome::Dropped => r is Err && r->Err_0@ == connection_lost_error(),
                WaitOutcome::TimedOut => r is Err && r->Err_0@ == timed_out_error(),
            },
            !(outcome is Reply) ==> match old(self).session() {
                None => final(self).session() is None,
                Some(s) => final(self).session() is Some && {
                    let t = final(self).session()->0;
                    &&& t.counter() == s.counter()
                    &&& t.nonce() == s.nonce()
                    &&& t.node_id() == s.node_id()
                    &&& t.transport() == s.transport()
                    &&& forall|i: int|
                        0 <= i < t.waiting().len() ==> (#[trigger] t.waiting()[i]).0 != key
                },
            },
    {
        match outcome {
            WaitOutcome::Reply(reply) => interpret_reply(&reply),
            WaitOutcome::Dropped => {
                self.forget_request(key);
                Err(String::from_str("Connection lost during node handshake"))
            },
            WaitOutcome::TimedOut => {
                self.forget_request(key);
                Err(String::from_str("Node handshake timed out (30s)"))
            },
        }
    }

    /// Stops awaiting request `key`, whether or not it was awaited.
    fn forget_request(&mut self, key: u64)
        requires
            old(self).wf(),
        ensures
            final(self).wf(),
            final(self).same_queue(old(self)),
            match old(self).session() {
                None => final(self).session() is None,
                Some(s) => final(self).session() is Some && {
                    let t = final(self).session()->0;
                    &&& t.counter() == s.counter()
                    &&& t.nonce() == s.nonce()
                    &&& t.node_id() == s.node_id()
                    &&& t.transport() == s.transport()
                    &&& forall|i: int|
                        0 <= i < t.waiting().len() ==> (#[trigger] t.waiting()[i]).0 != key
                },
            },
    {
        let gone = self.abandon_request(key);
        proof {
            if let Some(s) = old(self).session() {
                let t = self.session()->0;
                match gone {
                    Some(slot) => {
                        let at = choose|i: int|
                            0 <= i < s.waiting().len() && (#[trigger] s.waiting()[i]) == (key, slot)
                                && t.waiting() == s.waiting().remove(i);
                        assert forall|i: int| 0 <= i < t.waiting().len() implies (#[trigger] t.waiting()[i]).0
                            != key by {
                            let i0 = if i < at { i } else { i + 1 };
                            assert(t.waiting()[i] == s.waiting()[i0]);
                            if i0 < at {
                                assert(s.waiting()[i0].0 != s.waiting()[at].0);
                            } else {
                                assert(s.waiting()[at].0 != s.waiting()[i0].0);
                            }
                        }
                    },
                    None => {},
                }
            }
        }
    }
}

/// The error of a connection that could not be opened.
pub open spec fn connection_failed(reason: Seq<char>) -> Seq<char> {
    "Node WebSocket connection failed: "@ + reason
}

/// The error of a frame that could not be sent.
pub open spec fn send_failed(reason: Seq<char>) -> Seq<char> {
    "Failed to send node request: "@ + reason
}

/// Writes the error of a connection that could not be opened.
pub fn connection_failed_error(reason: &str) -> (e: String)
    ensures
        e@ == connection_failed(reason@),
{
    String::from_str("Node WebSocket connection failed: ").concat(reason)
}

/// Writes the error of a frame that could not be sent.
pub fn send_failed_error(reason: &str) -> (e: String)
    ensures
        e@ == send_failed(reason@),
{
    String::from_str("Failed to send node request: ").concat(reason)
}

/// Something to show on the user-facing surface.
#[derive(Debug, Clone, PartialEq, Eq)]
pub struct Notice {
    /// The name of the event.
    pub event: String,
    /// What the event carries.
    pub payload: Json,
}

/// The event that announces a usable connection.
pub open spec fn connected_event() -> Seq<char> {
    "doctor:bridge-connected"@
}

/// The event that announces the loss of the connection.
pub open spec fn disconnected_event() -> Seq<char> {
    "doctor:bridge-disconnected"@
}

/// The event that shows an invocation to the operator.
pub open spec fn invoke_event() -> Seq<char> {
    "doctor:invoke"@
}

/// The event that reports an error.
pub open spec fn error_event() -> Seq<char> {
    "doctor:error"@
}

/// The reason given when the gateway closed the connection.
pub open spec fn server_closed_reason() -> Seq<char> {
    "server closed"@
}

/// The message of a transport error.
pub open spec fn transport_error_message(error: Seq<char>) -> Seq<char> {
    "Node WS error: "@ + error
}

/// An object with one string member.
pub open spec fn one_member(key: Seq<char>, value: Seq<char>) -> JsonView {
    JsonView::Object(seq![(key, JsonView::Str(value))])
}

/// Builds an object with one string member.
fn make_one_member(key: &str, value: &str) -> (j: Json)
    ensures
        j@ == one_member(key@, value@),
{
    let mut members: Vec<(String, Json)> = Vec::new();
    members.push((String::from_str(key), json_str(value)));
    proof {
        lemma_object_view(members);
        assert(members_view(members@) =~= seq![(key@, JsonView::Str(value@))]);
    }
    Json::Object(members)
}

/// The notice of a usable connection.
pub fn connected_notice() -> (n: Notice)
    ensures
        n.event@ == connected_event(),
        n.payload@ == JsonView::Object(Seq::empty()),
{
    let members: Vec<(String, Json)> = Vec::new();
    proof {
        lemma_object_view(members);
        assert(members_view(members@) =~= Seq::empty());
    }
    Notice { event: String::from_str("doctor:bridge-connected"), payload: Json::Object(members) }
}

/// The notice of a lost connection, with its reason.
pub fn disconnected_notice(reason: &str) -> (n: Notice)
    ensures
        n.event@ == disconnected_event(),
        n.payload@ == one_member("reason"@, reason@),
{
    Notice {
        event: String::from_str("doctor:bridge-disconnected"),
        payload: make_one_member("reason", reason),
    }
}

/// The notice that shows an invocation to the operator.
pub fn invoke_notice(payload: Json) -> (n: Notice)
    ensures
        n.event@ == invoke_event(),
        n.payload@ == payload@,
{
    Notice { event: String::from_str("doctor:invoke"), payload }
}

/// The notices of a transport error: the error itself, then the loss of
/// the connection with the error as its reason.
pub fn transport_error_notices(error: &str) -> (n: Vec<Notice>)
    ensures
        n@.len() == 2,
        n@[0].event@ == error_event(),
        n@[0].payload@ == one_member("message"@, transport_error_message(error@)),
        n@[1].event@ == disconnected_event(),
        n@[1].payload@ == one_member("reason"@, error@),
{
    let message = String::from_str("Node WS error: ").concat(error);
    let mut notices: Vec<Notice> = Vec::new();
    notices.push(
        Notice {
            event: String::from_str("doctor:error"),
            payload: make_one_member("message", message.as_str()),
        },
    );
    notices.push(disconnected_notice(error));
    notices
}

/// The notice of a connection that the gateway closed.
pub fn server_closed_notice() -> (n: Notice)
    ensures
        n.event@ == disconnected_event(),
        n.payload@ == one_member("reason"@, server_closed_reason()),
{
    disconnected_notice("server closed")
}

/// Every rejection is sent once and echoes the node identifier of its own
/// invocation: there are as many rejections as invocations, and the one at
/// each place names the identifier and the node identifier at that place.
pub proof fn lemma_rejections_echo(
    dropped: Seq<(Seq<char>, Seq<char>)>,
    first: nat,
    code: Seq<char>,
    message: Seq<char>,
    i: int,
)
    requires
        0 <= i < dropped.len(),
    ensures
        rejections(dropped, first, code, message).len() == dropped.len(),
        rejections(dropped, first, code, message)[i] == request_text(
            request_id((first + i) as nat),
            invoke_result_method(),
            error_params(dropped[i].0, dropped[i].1, code, message),
        ),
{
}

/// The node identifier kept for an invocation is the one its request
/// carried, whatever this node calls itself.
pub proof fn lemma_node_id_echo(payload: JsonView)
    ensures
        crate::frame::invoke_of(payload).node_id == crate::frame::or_empty(
            payload.str_at("nodeId"@),
        ),
        invoke_payload(crate::frame::invoke_of(payload))->Object_0[4] == (
            "nodeId"@,
            JsonView::Str(crate::frame::or_empty(payload.str_at("nodeId"@))),
        ),
{
}

impl<T, S> BridgeClient<T, S> {
    /// A reply reaches the caller of its own request: where the request
    /// with the identifier of a response is awaited, handling the response
    /// hands the frame to the slot of exactly that request, and only that
    /// request stops being awaited.
    pub proof fn lemma_reply_reaches_its_caller(
        self,
        after: BridgeClient<T, S>,
        id: Seq<char>,
        frame: JsonView,
        out: FrameOutcome<S>,
        i: int,
    )
        requires
            self.wf(),
            self.session() is Some,
            0 <= i < self.session()->0.waiting().len(),
            request_id(self.session()->0.waiting()[i].0 as nat) == id,
            after.response_handled(&self, id, frame, out),
        ensures
            out is Reply,
            out->slot == self.session()->0.waiting()[i].1,
            out->frame@ == frame,
            after.session() is Some,
            after.session()->0.waiting() == self.session()->0.waiting().remove(i),
    {
        let s = self.session()->0;
        match out {
            FrameOutcome::Reply { slot, frame: delivered } => {
                let j = choose|j: int|
                    0 <= j < s.waiting().len() && request_id((#[trigger] s.waiting()[j]).0 as nat)
                        == id && s.waiting()[j].1 == slot && after.session()->0.waiting()
                        == s.waiting().remove(j);
                s.lemma_reply_matches_one_request(i, j);
            },
            FrameOutcome::Ignored => {
                assert(request_id(s.waiting()[i].0 as nat) != id);
            },
            _ => {},
        }
    }

    /// Completing a connection rejects every invocation that waited, once:
    /// there is one rejection for each, in the order they waited, each
    /// under a request number of its own and with the node identifier of
    /// its invocation; and nothing waits afterwards.
    pub proof fn lemma_stale_drained_once(self, after: BridgeClient<T, S>, sends: Seq<String>, i: int)
        requires
            self.session() is Some,
            after.stale_drained(&self, sends),
            0 <= i < self.invokes().pending().len(),
        ensures
            sends.len() == self.invokes().pending().len(),
            sends[i]@ == request_text(
                request_id((self.session()->0.counter() + 1 + i) as nat),
                invoke_result_method(),
                error_params(
                    self.invokes().pending()[i].id,
                    self.invokes().pending()[i].node_id,
                    stale_code(),
                    stale_message(),
                ),
            ),
            after.invokes().pending().len() == 0,
    {
        let waited = self.invokes().pending();
        let all = rejections(
            dropped_of(waited),
            self.session()->0.counter() + 1,
            stale_code(),
            stale_message(),
        );
        assert(texts(sends).len() == sends.len());
        assert(all.len() == waited.len());
        assert(texts(sends)[i] == sends[i]@);
        assert(dropped_of(waited)[i] == (waited[i].id, waited[i].node_id));
    }

    /// A disconnect followed by a connect yields a fresh session: its
    /// request numbers start over and it awaits nothing, whatever the
    /// session before awaited. The slots of the earlier session went out
    /// with it.
    pub proof fn lemma_round_trip(
        self,
        ended: Option<Session<T, S>>,
        idle: BridgeClient<T, S>,
        again: BridgeClient<T, S>,
        tx: T,
        host: Option<Seq<char>>,
    )
        requires
            ended == self.session(),
            idle.disconnected(&self),
            again.connected(&idle, tx, host),
        ensures
            again.session() is Some,
            again.session()->0.counter() == 0,
            again.session()->0.waiting().len() == 0,
            again.session()->0.nonce() is None,
            self.session() matches Some(s) ==> ended->0.waiting() == s.waiting(),
            again.invokes().pending().len() == 0,
    {
    }
}

/// What the transport handed to the reader.
#[derive(Debug, Clone, PartialEq, Eq)]
pub enum TransportEvent {
    /// A text frame.
    Text(String),
    /// The gateway closed the connection.
    Close,
    /// Reading failed, for the reason given.
    Failed(String),
    /// A binary or control frame; such frames are passed over.
    Other,
}

/// What the reader is to do after an event of the transport.
pub enum ReaderStep<T, S> {
    /// Act on the outcome and read on.
    Continue(FrameOutcome<S>),
    /// Show the notices and stop reading: the connection is lost, and the
    /// session that ended with it is handed out.
    Stop { ended: Option<Session<T, S>>, notices: Vec<Notice> },
}

impl<T, S> BridgeClient<T, S> {
    /// What an event of the transport does. A text frame is handled as a
    /// frame; a binary or control frame changes nothing. A close or a
    /// failure ends the session, leaves the queue as it is, and is
    /// announced: a close as a lost connection, a failure as an error and
    /// then as a lost connection with the failure as its reason.
    pub open spec fn event_handled(
        &self,
        before: &Self,
        event: TransportEvent,
        step: ReaderStep<T, S>,
    ) -> bool {
        match event {
            TransportEvent::Text(text) => step is Continue && self.text_handled(
                before,
                text@,
                step->Continue_0,
            ),
            TransportEvent::Other => step is Continue && step->Continue_0 is Ignored
                && self.unchanged(before),
            TransportEvent::Close => {
                &&& step is Stop
                &&& step->ended == before.session()
                &&& self.session() is None
                &&& self.same_queue(before)
                &&& step->notices@.len() == 1
                &&& step->notices@[0].event@ == disconnected_event()
                &&& step->notices@[0].payload@ == one_member("reason"@, server_closed_reason())
            },
            TransportEvent::Failed(error) => {
                &&& step is Stop
                &&& step->ended == before.session()
                &&& self.session() is None
                &&& self.same_queue(before)
                &&& step->notices@.len() == 2
                &&& step->notices@[0].event@ == error_event()
                &&& step->notices@[0].payload@ == one_member(
                    "message"@,
                    transport_error_message(error@),
                )
                &&& step->notices@[1].event@ == disconnected_event()
                &&& step->notices@[1].payload@ == one_member("reason"@, error@)
            },
        }
    }

    /// Handles one event of the transport.
    pub fn handle_event(&mut self, event: &TransportEvent) -> (step: ReaderStep<T, S>)
        requires
            old(self).wf(),
            old(self).can_number(1),
        ensures
            final(self).wf(),
            final(self).event_handled(old(self), *event, step),
    {
        match event {
            TransportEvent::Text(text) => ReaderStep::Continue(self.handle_text(text.as_str())),
            TransportEvent::Other => ReaderStep::Continue(FrameOutcome::Ignored),
            TransportEvent::Close => {
                let mut notices: Vec<Notice> = Vec::new();
                notices.push(server_closed_notice());
                ReaderStep::Stop { ended: self.connection_lost(), notices }
            },
            TransportEvent::Failed(error) => {
                let notices = transport_error_notices(error.as_str());
                ReaderStep::Stop { ended: self.connection_lost(), notices }
            },
        }
    }
}

} // verus!
