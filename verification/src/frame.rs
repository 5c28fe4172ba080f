//! The frames that travel between node and gateway.
//!
//! A frame is a JSON object with a `type` member. Requests go out, responses
//! come back under the identifier of their request, and events arrive
//! unasked.

use crate::classify::{classify, classify_invoke, Risk};
use crate::invoke::{PendingInvoke, PendingInvokeView};
use crate::json::{
    json_parse, json_text, lemma_object_view, members_view, opt_view, parse_json, parsed_ok,
    print_json, Json, JsonView,
};
use crate::text::{decimal, str_eq, u64_to_string};
use vstd::prelude::*;
use vstd::string::*;

verus! {

/// The identifier of the `n`-th request of a session: the letter `n` and the
/// number in decimal.
pub open spec fn request_id(n: nat) -> Seq<char> {
    seq!['n'] + decimal(n)
}

/// The request frame for a method and its parameters.
pub open spec fn request_frame(id: Seq<char>, method: Seq<char>, params: JsonView) -> JsonView {
    JsonView::Object(
        seq![
            ("type"@, JsonView::Str("req"@)),
            ("id"@, JsonView::Str(id)),
            ("method"@, JsonView::Str(method)),
            ("params"@, params),
        ],
    )
}

/// The text of the request frame for a method and its parameters.
pub open spec fn request_text(id: Seq<char>, method: Seq<char>, params: JsonView) -> Seq<char> {
    json_text(request_frame(id, method, params))
}

/// Writes the identifier of the `n`-th request.
pub fn make_request_id(n: u64) -> (id: String)
    ensures
        id@ == request_id(n as nat),
{
    proof {
        reveal_strlit("n");
    }
    let id = String::from_str("n").concat(u64_to_string(n).as_str());
    assert(id@ =~= request_id(n as nat));
    id
}

/// Builds a JSON string value from a string slice.
pub fn json_str(s: &str) -> (j: Json)
    ensures
        j@ == JsonView::Str(s@),
{
    Json::Str(String::from_str(s))
}

/// Builds the request frame for a method and its parameters.
pub fn make_request_frame(id: &str, method: &str, params: Json) -> (frame: Json)
    ensures
        frame@ == request_frame(id@, method@, params@),
{
    let mut members: Vec<(String, Json)> = Vec::new();
    members.push((String::from_str("type"), json_str("req")));
    members.push((String::from_str("id"), json_str(id)));
    members.push((String::from_str("method"), json_str(method)));
    members.push((String::from_str("params"), params));
    proof {
        lemma_object_view(members);
        assert(members_view(members@) =~= request_frame(id@, method@, params@)->Object_0);
    }
    Json::Object(members)
}

/// Writes the text of the request frame for a method and its parameters.
pub fn make_request_text(id: &str, method: &str, params: Json) -> (text: String)
    ensures
        text@ == request_text(id@, method@, params@),
{
    let frame = make_request_frame(id, method, params);
    print_json(&frame)
}

/// The method under which the result of an invocation goes out.
pub open spec fn invoke_result_method() -> Seq<char> {
    "node.invoke.result"@
}

/// The parameters of a successful invocation result.
pub open spec fn result_params(id: Seq<char>, node_id: Seq<char>, payload: JsonView) -> JsonView {
    JsonView::Object(
        seq![
            ("id"@, JsonView::Str(id)),
            ("nodeId"@, JsonView::Str(node_id)),
            ("ok"@, JsonView::Bool(true)),
            ("payload"@, payload),
        ],
    )
}

/// The parameters of a failed invocation result.
pub open spec fn error_params(
    id: Seq<char>,
    node_id: Seq<char>,
    code: Seq<char>,
    message: Seq<char>,
) -> JsonView {
    JsonView::Object(
        seq![
            ("id"@, JsonView::Str(id)),
            ("nodeId"@, JsonView::Str(node_id)),
            ("ok"@, JsonView::Bool(false)),
            (
                "error"@,
                JsonView::Object(
                    seq![("code"@, JsonView::Str(code)), ("message"@, JsonView::Str(message))],
                ),
            ),
        ],
    )
}

/// Builds the parameters of a successful invocation result.
pub fn make_result_params(id: &str, node_id: &str, payload: Json) -> (params: Json)
    ensures
        params@ == result_params(id@, node_id@, payload@),
{
    let mut members: Vec<(String, Json)> = Vec::new();
    members.push((String::from_str("id"), json_str(id)));
    members.push((String::from_str("nodeId"), json_str(node_id)));
    members.push((String::from_str("ok"), Json::Bool(true)));
    members.push((String::from_str("payload"), payload));
    proof {
        lemma_object_view(members);
        assert(members_view(members@) =~= result_params(id@, node_id@, payload@)->Object_0);
    }
    Json::Object(members)
}

/// Builds the parameters of a failed invocation result.
pub fn make_error_params(id: &str, node_id: &str, code: &str, message: &str) -> (params: Json)
    ensures
        params@ == error_params(id@, node_id@, code@, message@),
{
    let mut error: Vec<(String, Json)> = Vec::new();
    error.push((String::from_str("code"), json_str(code)));
    error.push((String::from_str("message"), json_str(message)));
    proof {
        lemma_object_view(error);
        assert(members_view(error@) =~= seq![
            ("code"@, JsonView::Str(code@)),
            ("message"@, JsonView::Str(message@)),
        ]);
    }
    let mut members: Vec<(String, Json)> = Vec::new();
    members.push((String::from_str("id"), json_str(id)));
    members.push((String::from_str("nodeId"), json_str(node_id)));
    members.push((String::from_str("ok"), Json::Bool(false)));
    members.push((String::from_str("error"), Json::Object(error)));
    proof {
        lemma_object_view(members);
        assert(members_view(members@) =~= error_params(id@, node_id@, code@, message@)->Object_0);
    }
    Json::Object(members)
}

/// The text of an optional string, empty where there is none.
pub open spec fn or_empty(s: Option<Seq<char>>) -> Seq<char> {
    match s {
        Some(t) => t,
        None => Seq::empty(),
    }
}

/// The arguments of an invocation request, given what its string-encoded
/// arguments parse to: that value where there is one, else the member
/// `params`, else `null`.
pub open spec fn select_args(parsed: Option<JsonView>, payload: JsonView) -> JsonView {
    match parsed {
        Some(v) => v,
        None => match payload.get("params"@) {
            Some(v) => v,
            None => JsonView::Null,
        },
    }
}

/// What the string-encoded arguments of a request parse to: the member
/// `paramsJSON`, where it is a string, read as JSON.
pub open spec fn parsed_args(payload: JsonView) -> Option<JsonView> {
    match payload.str_at("paramsJSON"@) {
        Some(text) => parsed_ok(json_parse(text)),
        None => None,
    }
}

/// The arguments of an invocation request: the member `paramsJSON` where it
/// is a string that parses as JSON, else the member `params`, else `null`.
pub open spec fn invoke_args(payload: JsonView) -> JsonView {
    select_args(parsed_args(payload), payload)
}

/// The invocation that a request payload asks for. Missing identifiers and
/// names are empty; the node identifier is the one the gateway wrote.
pub open spec fn invoke_of(payload: JsonView) -> PendingInvokeView {
    let command = or_empty(payload.str_at("command"@));
    let args = invoke_args(payload);
    PendingInvokeView {
        id: or_empty(payload.str_at("id"@)),
        node_id: or_empty(payload.str_at("nodeId"@)),
        command,
        args,
        risk: classify(command, args),
    }
}

/// The wire name of a classification.
pub open spec fn risk_name(risk: Risk) -> Seq<char> {
    match risk {
        Risk::Read => "read"@,
        Risk::Write => "write"@,
    }
}

/// What the operator is shown of an invocation.
pub open spec fn invoke_payload(invoke: PendingInvokeView) -> JsonView {
    JsonView::Object(
        seq![
            ("id"@, JsonView::Str(invoke.id)),
            ("command"@, JsonView::Str(invoke.command)),
            ("args"@, invoke.args),
            ("type"@, JsonView::Str(risk_name(invoke.risk))),
            ("nodeId"@, JsonView::Str(invoke.node_id)),
        ],
    )
}

/// An inbound frame, as far as the bridge acts on it.
#[derive(Debug, Clone, PartialEq, Eq)]
pub enum Inbound {
    /// The reply to the request with this identifier.
    Response { id: String },
    /// The gateway's challenge.
    Challenge { nonce: String },
    /// A request to run a command.
    Invoke(PendingInvoke),
    /// Anything else; it is ignored.
    Other,
}

/// Mathematical model of an [`Inbound`] frame.
pub enum InboundView {
    Response { id: Seq<char> },
    Challenge { nonce: Seq<char> },
    Invoke(PendingInvokeView),
    Other,
}

impl View for Inbound {
    type V = InboundView;

    open spec fn view(&self) -> InboundView {
        match self {
            Inbound::Response { id } => InboundView::Response { id: id@ },
            Inbound::Challenge { nonce } => InboundView::Challenge { nonce: nonce@ },
            Inbound::Invoke(invoke) => InboundView::Invoke(invoke@),
            Inbound::Other => InboundView::Other,
        }
    }
}

/// The payload of an event frame, `null` where it has none.
pub open spec fn event_payload(frame: JsonView) -> JsonView {
    match frame.get("payload"@) {
        Some(v) => v,
        None => JsonView::Null,
    }
}

/// How a frame is read: a response needs a string `id`, a challenge a string
/// `nonce` in its payload; an invocation request is taken as it comes.
pub open spec fn inbound_of(frame: JsonView) -> InboundView {
    let kind = or_empty(frame.str_at("type"@));
    if kind == "res"@ {
        match frame.str_at("id"@) {
            Some(id) => InboundView::Response { id },
            None => InboundView::Other,
        }
    } else if kind == "event"@ {
        let name = or_empty(frame.str_at("event"@));
        let payload = event_payload(frame);
        if name == "connect.challenge"@ {
            match payload.str_at("nonce"@) {
                Some(nonce) => InboundView::Challenge { nonce },
                None => InboundView::Other,
            }
        } else if name == "node.invoke.request"@ {
            InboundView::Invoke(invoke_of(payload))
        } else {
            InboundView::Other
        }
    } else {
        InboundView::Other
    }
}

/// The string member `key`, or the empty string.
fn str_or_empty<'a>(value: &'a Json, key: &str) -> (s: &'a str)
    ensures
        s@ == or_empty(value@.str_at(key@)),
{
    match value.str_at(key) {
        Some(s) => s,
        None => {
            proof {
                reveal_strlit("");
            }
            let s = "";
            assert(s@ =~= Seq::<char>::empty());
            s
        },
    }
}

/// Chooses the arguments of an invocation request, given what its
/// string-encoded arguments parsed to.
pub fn choose_args(parsed: Option<Json>, payload: &Json) -> (args: Json)
    ensures
        args@ == select_args(opt_view(parsed), payload@),
{
    match parsed {
        Some(v) => v,
        None => match payload.get("params") {
            Some(v) => v.deep_clone(),
            None => Json::Null,
        },
    }
}

/// Reads the arguments of an invocation request.
pub fn read_invoke_args(payload: &Json) -> (args: Json)
    ensures
        args@ == invoke_args(payload@),
{
    let parsed = match payload.str_at("paramsJSON") {
        Some(text) => match parse_json(text) {
            Ok(v) => Some(v),
            Err(_) => None,
        },
        None => None,
    };
    choose_args(parsed, payload)
}

/// Reads the invocation that a request payload asks for, and classifies it.
pub fn read_invoke(payload: &Json) -> (invoke: PendingInvoke)
    ensures
        invoke@ == invoke_of(payload@),
{
    let id = String::from_str(str_or_empty(payload, "id"));
    let command = String::from_str(str_or_empty(payload, "command"));
    let node_id = String::from_str(str_or_empty(payload, "nodeId"));
    let args = read_invoke_args(payload);
    let risk = classify_invoke(command.as_str(), &args);
    PendingInvoke { id, node_id, command, args, risk }
}

/// Builds what the operator is shown of an invocation.
pub fn make_invoke_payload(invoke: &PendingInvoke) -> (payload: Json)
    ensures
        payload@ == invoke_payload(invoke@),
{
    let kind = match invoke.risk {
        Risk::Read => "read",
        Risk::Write => "write",
    };
    let mut members: Vec<(String, Json)> = Vec::new();
    members.push((String::from_str("id"), json_str(invoke.id.as_str())));
    members.push((String::from_str("command"), json_str(invoke.command.as_str())));
    members.push((String::from_str("args"), invoke.args.deep_clone()));
    members.push((String::from_str("type"), json_str(kind)));
    members.push((String::from_str("nodeId"), json_str(invoke.node_id.as_str())));
    proof {
        lemma_object_view(members);
        assert(members_view(members@) =~= invoke_payload(invoke@)->Object_0);
    }
    Json::Object(members)
}

/// Reads an inbound frame.
pub fn read_frame(frame: &Json) -> (inbound: Inbound)
    ensures
        inbound@ == inbound_of(frame@),
{
    let kind = str_or_empty(frame, "type");
    if str_eq(kind, "res") {
        match frame.str_at("id") {
            Some(id) => Inbound::Response { id: String::from_str(id) },
            None => Inbound::Other,
        }
    } else if str_eq(kind, "event") {
        let name = str_or_empty(frame, "event");
        let null = Json::Null;
        let payload = match frame.get("payload") {
            Some(v) => v,
            None => &null,
        };
        if str_eq(name, "connect.challenge") {
            match payload.str_at("nonce") {
                Some(nonce) => Inbound::Challenge { nonce: String::from_str(nonce) },
                None => Inbound::Other,
            }
        } else if str_eq(name, "node.invoke.request") {
            Inbound::Invoke(read_invoke(payload))
        } else {
            Inbound::Other
        }
    } else {
        Inbound::Other
    }
}

} // verus!
