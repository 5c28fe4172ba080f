//! The handshake that makes a connection usable.
//!
//! The node proves who it is by signing a payload that holds the gateway's
//! challenge, and announces its role and its commands in one `connect`
//! request. Keys and signatures are Ed25519, by `ed25519_dalek`; their text
//! form is base64 with the URL-safe alphabet and no padding, by `base64`.

use crate::bridge_client::{BridgeClient, not_connected};
use crate::frame::{json_str, request_id, request_text};
use crate::json::{
    items_view, json_parse, lemma_array_view, lemma_object_view, members_view, parse_json,
    parsed_ok, Json, JsonNumber, JsonView, NumberView,
};
use crate::text::{decimal, u64_to_string};
use base64::Engine;
use ed25519_dalek::pkcs8::DecodePrivateKey;
use ed25519_dalek::Signer;
use vstd::prelude::*;
use vstd::string::*;

verus! {

/// The credentials of a gateway reached through a remote session: the bearer
/// token, the device identifier, and the device's Ed25519 private key as
/// PKCS#8 PEM text.
#[derive(Debug, Clone, PartialEq, Eq)]
pub struct GatewayCredentials {
    pub token: String,
    pub device_id: String,
    pub private_key_pem: String,
}

/// What the node signs and sends of itself: the bearer token, the device
/// identifier, the secret key, and the text form of the public key.
#[derive(Debug, Clone, PartialEq, Eq)]
pub struct Identity {
    pub token: String,
    pub device_id: String,
    pub secret_key: [u8; 32],
    pub public_key: String,
}

/// The commands that the node advertises.
pub open spec fn node_commands() -> Seq<Seq<char>> {
    seq!["system.run"@]
}

/// How often the handshake looks for the challenge before it goes on
/// without one.
pub const NONCE_POLL_ATTEMPTS: u32 = 30;

/// Milliseconds between two looks for the challenge.
pub const NONCE_POLL_MILLIS: u64 = 100;

/// What `SigningKey::from_pkcs8_pem` makes of a PEM text: the 32 bytes of
/// the secret key, or the text of the error it reports.
pub uninterp spec fn pkcs8_pem_key(pem: Seq<char>) -> Result<Seq<u8>, Seq<char>>;

/// The public key that belongs to an Ed25519 secret key.
pub uninterp spec fn ed25519_public_key(secret: Seq<u8>) -> Seq<u8>;

/// The Ed25519 signature of a message under a secret key.
pub uninterp spec fn ed25519_signature(secret: Seq<u8>, message: Seq<u8>) -> Seq<u8>;

/// The base64 text of bytes, in the URL-safe alphabet and without padding.
pub uninterp spec fn base64_url(bytes: Seq<u8>) -> Seq<char>;

/// The view of a decoded key.
pub open spec fn key_view(r: Result<[u8; 32], String>) -> Result<Seq<u8>, Seq<char>> {
    match r {
        Ok(key) => Ok(key@),
        Err(e) => Err(e@),
    }
}

/// Reads an Ed25519 private key from PKCS#8 PEM text with
/// `SigningKey::from_pkcs8_pem` and gives its secret bytes; an error is
/// given as the text it displays. The result is `pkcs8_pem_key` of the text.
#[verifier::external_body]
pub(crate) fn decode_signing_key(pem: &str) -> (r: Result<[u8; 32], String>)
    ensures
        key_view(r) == pkcs8_pem_key(pem@),
{
    ed25519_dalek::SigningKey::from_pkcs8_pem(pem).map(|key| key.to_bytes()).map_err(
        |e| e.to_string(),
    )
}

/// Derives the public key of a secret key with `SigningKey::from_bytes` and
/// `verifying_key`. The result is `ed25519_public_key` of the secret key.
#[verifier::external_body]
pub(crate) fn derive_public_key(secret: &[u8; 32]) -> (public: [u8; 32])
    ensures
        public@ == ed25519_public_key(secret@),
{
    ed25519_dalek::SigningKey::from_bytes(secret).verifying_key().to_bytes()
}

/// Signs a message with `Signer::sign` of the key that `SigningKey::from_bytes`
/// makes of the secret key. The result is `ed25519_signature` of the two.
#[verifier::external_body]
pub(crate) fn sign_bytes(secret: &[u8; 32], message: &[u8]) -> (signature: [u8; 64])
    ensures
        signature@ == ed25519_signature(secret@, message@),
{
    ed25519_dalek::SigningKey::from_bytes(secret).sign(message).to_bytes()
}

/// Encodes bytes with `URL_SAFE_NO_PAD.encode`. The result is `base64_url`
/// of the bytes. The encoder gives up on inputs whose encoding would not fit
/// the address space, so such inputs are not accepted.
#[verifier::external_body]
pub(crate) fn encode_base64_url(bytes: &[u8]) -> (text: String)
    requires
        bytes@.len() <= 0x1000_0000,
    ensures
        text@ == base64_url(bytes@),
{
    base64::engine::general_purpose::URL_SAFE_NO_PAD.encode(bytes)
}

/// The error of a private key that cannot be read.
pub open spec fn key_parse_error(reason: Seq<char>) -> Seq<char> {
    "Failed to parse remote Ed25519 private key: "@ + reason
}

/// Mathematical model of an [`Identity`].
pub struct IdentityView {
    pub token: Seq<char>,
    pub device_id: Seq<char>,
    pub secret_key: Seq<u8>,
    pub public_key: Seq<char>,
}

impl View for Identity {
    type V = IdentityView;

    open spec fn view(&self) -> IdentityView {
        IdentityView {
            token: self.token@,
            device_id: self.device_id@,
            secret_key: self.secret_key@,
            public_key: self.public_key@,
        }
    }
}

/// The identity that remote credentials stand for, given what their key
/// text decodes to.
pub open spec fn identity_from(
    token: Seq<char>,
    device_id: Seq<char>,
    decoded: Result<Seq<u8>, Seq<char>>,
) -> Result<IdentityView, Seq<char>> {
    match decoded {
        Ok(secret) => Ok(
            IdentityView {
                token,
                device_id,
                secret_key: secret,
                public_key: base64_url(ed25519_public_key(secret)),
            },
        ),
        Err(reason) => Err(key_parse_error(reason)),
    }
}

/// The view of a resolved identity.
pub open spec fn identity_result_view(r: Result<Identity, String>) -> Result<
    IdentityView,
    Seq<char>,
> {
    match r {
        Ok(identity) => Ok(identity@),
        Err(e) => Err(e@),
    }
}

/// Builds the identity of remote credentials from their decoded key.
pub fn identity_from_key(token: &str, device_id: &str, decoded: Result<[u8; 32], String>) -> (r:
    Result<Identity, String>)
    ensures
        identity_result_view(r) == identity_from(token@, device_id@, key_view(decoded)),
{
    match decoded {
        Ok(secret) => {
            let public = derive_public_key(&secret);
            let public_key = encode_base64_url(public.as_slice());
            Ok(
                Identity {
                    token: String::from_str(token),
                    device_id: String::from_str(device_id),
                    secret_key: secret,
                    public_key,
                },
            )
        },
        Err(reason) => Err(
            String::from_str("Failed to parse remote Ed25519 private key: ").concat(
                reason.as_str(),
            ),
        ),
    }
}

/// Resolves the identity of remote credentials: reads the private key,
/// derives the public key, and fails with a descriptive error where the key
/// text is malformed.
pub fn remote_identity(creds: &GatewayCredentials) -> (r: Result<Identity, String>)
    ensures
        identity_result_view(r) == identity_from(
            creds.token@,
            creds.device_id@,
            pkcs8_pem_key(creds.private_key_pem@),
        ),
{
    let decoded = decode_signing_key(creds.private_key_pem.as_str());
    identity_from_key(creds.token.as_str(), creds.device_id.as_str(), decoded)
}

/// Where the identity of the node comes from.
#[derive(Debug, Clone, PartialEq, Eq)]
pub enum IdentitySource {
    /// From the credentials of a remote session, resolved to this.
    Remote(Identity),
    /// From the identity of the local device, which the caller loads.
    Local,
}

/// Chooses where the identity of the node comes from: credentials given
/// for the connection attempt are preferred over the local device, and
/// their key must be readable.
pub fn identity_source(creds: Option<&GatewayCredentials>) -> (r: Result<IdentitySource, String>)
    ensures
        match creds {
            None => r == Ok::<IdentitySource, String>(IdentitySource::Local),
            Some(c) => match identity_from(
                c.token@,
                c.device_id@,
                pkcs8_pem_key(c.private_key_pem@),
            ) {
                Ok(identity) => r matches Ok(IdentitySource::Remote(found)) && found@ == identity,
                Err(e) => r matches Err(reason) && reason@ == e,
            },
        },
{
    match creds {
        None => Ok(IdentitySource::Local),
        Some(c) => match remote_identity(c) {
            Ok(identity) => Ok(IdentitySource::Remote(identity)),
            Err(e) => Err(e),
        },
    }
}

/// The bearer token in the text of a local configuration: the string at
/// `gateway.auth.token`, given what the text parses to; empty where the
/// text is missing, is no JSON, or has no such string.
pub open spec fn token_in(config: Option<JsonView>) -> Seq<char> {
    match config {
        Some(root) => match root.get("gateway"@) {
            Some(gateway) => match gateway.get("auth"@) {
                Some(auth) => match auth.str_at("token"@) {
                    Some(token) => token,
                    None => Seq::empty(),
                },
                None => Seq::empty(),
            },
            None => Seq::empty(),
        },
        None => Seq::empty(),
    }
}

/// Finds the bearer token in a parsed local configuration.
pub fn token_of_config(config: Option<&Json>) -> (token: String)
    ensures
        token@ == token_in(
            match config {
                Some(j) => Some(j@),
                None => None,
            },
        ),
{
    if let Some(root) = config {
        if let Some(gateway) = root.get("gateway") {
            if let Some(auth) = gateway.get("auth") {
                if let Some(token) = auth.str_at("token") {
                    return String::from_str(token);
                }
            }
        }
    }
    String::new()
}

/// Finds the bearer token in the text of the local configuration file, if
/// the file could be read.
pub fn local_token(config_text: Option<&str>) -> (token: String)
    ensures
        token@ == token_in(
            match config_text {
                Some(text) => parsed_ok(json_parse(text@)),
                None => None,
            },
        ),
{
    match config_text {
        Some(text) => {
            let parsed = parse_json(text);
            match &parsed {
                Ok(root) => token_of_config(Some(root)),
                Err(_) => token_of_config(None),
            }
        },
        None => token_of_config(None),
    }
}

/// The payload that the node signs: a version tag, the device identifier,
/// the client, mode and role of a node, an empty scope list, the time of
/// signing in milliseconds, the bearer token and the challenge, joined by
/// bars.
pub open spec fn signing_payload(
    device_id: Seq<char>,
    signed_at: nat,
    token: Seq<char>,
    nonce: Seq<char>,
) -> Seq<char> {
    "v2|"@ + device_id + "|node-host|node|node||"@ + decimal(signed_at) + "|"@ + token + "|"@
        + nonce
}

/// Writes the payload that the node signs.
pub fn make_signing_payload(device_id: &str, signed_at: u64, token: &str, nonce: &str) -> (payload:
    String)
    ensures
        payload@ == signing_payload(device_id@, signed_at as nat, token@, nonce@),
{
    let mut payload = String::from_str("v2|");
    payload.append(device_id);
    payload.append("|node-host|node|node||");
    payload.append(u64_to_string(signed_at).as_str());
    payload.append("|");
    payload.append(token);
    payload.append("|");
    payload.append(nonce);
    payload
}

/// The signature of the node over the challenge, in text form.
pub open spec fn challenge_signature(
    secret: Seq<u8>,
    device_id: Seq<char>,
    signed_at: nat,
    token: Seq<char>,
    nonce: Seq<char>,
) -> Seq<char> {
    base64_url(
        ed25519_signature(
            secret,
            vstd::utf8::encode_utf8(signing_payload(device_id, signed_at, token, nonce)),
        ),
    )
}

/// Signs the challenge for the role of a node.
pub fn sign_node_challenge(
    secret: &[u8; 32],
    device_id: &str,
    signed_at: u64,
    token: &str,
    nonce: &str,
) -> (signature: String)
    ensures
        signature@ == challenge_signature(secret@, device_id@, signed_at as nat, token@, nonce@),
{
    let payload = make_signing_payload(device_id, signed_at, token, nonce);
    let signature = sign_bytes(secret, payload.as_str().as_bytes());
    encode_base64_url(signature.as_slice())
}

/// A JSON number that is a non-negative integer.
pub open spec fn json_uint(n: u64) -> JsonView {
    JsonView::Number(NumberView::PosInt(n))
}

/// How the node describes its device: identifier, public key, signature
/// and time of signing, and the challenge where there was one.
pub open spec fn device_descriptor(
    device_id: Seq<char>,
    public_key: Seq<char>,
    signature: Seq<char>,
    signed_at: u64,
    nonce: Seq<char>,
) -> JsonView {
    let base = seq![
        ("id"@, JsonView::Str(device_id)),
        ("publicKey"@, JsonView::Str(public_key)),
        ("signature"@, JsonView::Str(signature)),
        ("signedAt"@, json_uint(signed_at)),
    ];
    if nonce.len() == 0 {
        JsonView::Object(base)
    } else {
        JsonView::Object(base.push(("nonce"@, JsonView::Str(nonce))))
    }
}

/// How the node describes its client: a fixed identifier and name, the host
/// platform, the mode of a node, the version, and the node's own identifier
/// as the instance.
pub open spec fn client_descriptor(
    platform: Seq<char>,
    version: Seq<char>,
    node_id: Seq<char>,
) -> JsonView {
    JsonView::Object(
        seq![
            ("id"@, JsonView::Str("node-host"@)),
            ("displayName"@, JsonView::Str("ClawPal"@)),
            ("platform"@, JsonView::Str(platform)),
            ("mode"@, JsonView::Str("node"@)),
            ("version"@, JsonView::Str(version)),
            ("instanceId"@, JsonView::Str(node_id)),
        ],
    )
}

/// The parameters of the `connect` request of a node.
pub open spec fn connect_params(
    token: Seq<char>,
    device: JsonView,
    client: JsonView,
) -> JsonView {
    JsonView::Object(
        seq![
            ("minProtocol"@, json_uint(3)),
            ("maxProtocol"@, json_uint(3)),
            ("auth"@, JsonView::Object(seq![("token"@, JsonView::Str(token))])),
            ("role"@, JsonView::Str("node"@)),
            ("scopes"@, JsonView::Array(Seq::empty())),
            ("caps"@, JsonView::Array(seq![JsonView::Str("system"@)])),
            ("commands"@, JsonView::Array(seq![JsonView::Str("system.run"@)])),
            ("device"@, device),
            ("client"@, client),
        ],
    )
}

/// Builds a JSON object from its members.
fn make_object(members: Vec<(String, Json)>) -> (j: Json)
    ensures
        j@ == JsonView::Object(members_view(members@)),
{
    proof {
        lemma_object_view(members);
    }
    Json::Object(members)
}

/// Builds a JSON array from its elements.
fn make_array(items: Vec<Json>) -> (j: Json)
    ensures
        j@ == JsonView::Array(items_view(items@)),
{
    proof {
        lemma_array_view(items);
    }
    Json::Array(items)
}

/// Builds a JSON number from a non-negative integer.
fn make_uint(n: u64) -> (j: Json)
    ensures
        j@ == json_uint(n),
{
    Json::Number(JsonNumber::PosInt(n))
}

/// Builds the description of the device.
pub fn make_device_descriptor(
    device_id: &str,
    public_key: &str,
    signature: &str,
    signed_at: u64,
    nonce: &str,
) -> (device: Json)
    ensures
        device@ == device_descriptor(device_id@, public_key@, signature@, signed_at, nonce@),
{
    let mut members: Vec<(String, Json)> = Vec::new();
    members.push((String::from_str("id"), json_str(device_id)));
    members.push((String::from_str("publicKey"), json_str(public_key)));
    members.push((String::from_str("signature"), json_str(signature)));
    members.push((String::from_str("signedAt"), make_uint(signed_at)));
    let ghost base = seq![
        ("id"@, JsonView::Str(device_id@)),
        ("publicKey"@, JsonView::Str(public_key@)),
        ("signature"@, JsonView::Str(signature@)),
        ("signedAt"@, json_uint(signed_at)),
    ];
    assert(members_view(members@) =~= base);
    if nonce.unicode_len() != 0 {
        members.push((String::from_str("nonce"), json_str(nonce)));
        assert(members_view(members@) =~= base.push(("nonce"@, JsonView::Str(nonce@))));
    }
    make_object(members)
}

/// Builds the description of the client.
pub fn make_client_descriptor(platform: &str, version: &str, node_id: &str) -> (client: Json)
    ensures
        client@ == client_descriptor(platform@, version@, node_id@),
{
    let mut members: Vec<(String, Json)> = Vec::new();
    members.push((String::from_str("id"), json_str("node-host")));
    members.push((String::from_str("displayName"), json_str("ClawPal")));
    members.push((String::from_str("platform"), json_str(platform)));
    members.push((String::from_str("mode"), json_str("node")));
    members.push((String::from_str("version"), json_str(version)));
    members.push((String::from_str("instanceId"), json_str(node_id)));
    assert(members_view(members@) =~= client_descriptor(platform@, version@, node_id@)->Object_0);
    make_object(members)
}

/// Builds the parameters of the `connect` request of a node.
pub fn make_connect_params(token: &str, device: Json, client: Json) -> (params: Json)
    ensures
        params@ == connect_params(token@, device@, client@),
{
    let mut auth: Vec<(String, Json)> = Vec::new();
    auth.push((String::from_str("token"), json_str(token)));
    assert(members_view(auth@) =~= seq![("token"@, JsonView::Str(token@))]);
    let scopes: Vec<Json> = Vec::new();
    assert(items_view(scopes@) =~= Seq::<JsonView>::empty());
    let mut caps: Vec<Json> = Vec::new();
    caps.push(json_str("system"));
    assert(items_view(caps@) =~= seq![JsonView::Str("system"@)]);
    let mut commands: Vec<Json> = Vec::new();
    commands.push(json_str("system.run"));
    assert(items_view(commands@) =~= seq![JsonView::Str("system.run"@)]);
    let mut members: Vec<(String, Json)> = Vec::new();
    members.push((String::from_str("minProtocol"), make_uint(3)));
    members.push((String::from_str("maxProtocol"), make_uint(3)));
    members.push((String::from_str("auth"), make_object(auth)));
    members.push((String::from_str("role"), json_str("node")));
    members.push((String::from_str("scopes"), make_array(scopes)));
    members.push((String::from_str("caps"), make_array(caps)));
    members.push((String::from_str("commands"), make_array(commands)));
    members.push((String::from_str("device"), device));
    members.push((String::from_str("client"), client));
    assert(members_view(members@) =~= connect_params(token@, device@, client@)->Object_0);
    make_object(members)
}

/// The parameters of the `connect` request that a node with this identity
/// sends at `signed_at`, in answer to the challenge `nonce`.
pub open spec fn handshake_params(
    identity: IdentityView,
    nonce: Seq<char>,
    signed_at: u64,
    platform: Seq<char>,
    version: Seq<char>,
    node_id: Seq<char>,
) -> JsonView {
    connect_params(
        identity.token,
        device_descriptor(
            identity.device_id,
            identity.public_key,
            challenge_signature(
                identity.secret_key,
                identity.device_id,
                signed_at as nat,
                identity.token,
                nonce,
            ),
            signed_at,
            nonce,
        ),
        client_descriptor(platform, version, node_id),
    )
}

/// Signs the challenge and builds the parameters of the `connect` request.
pub fn make_handshake_params(
    identity: &Identity,
    nonce: &str,
    signed_at: u64,
    platform: &str,
    version: &str,
    node_id: &str,
) -> (params: Json)
    ensures
        params@ == handshake_params(identity@, nonce@, signed_at, platform@, version@, node_id@),
{
    let signature = sign_node_challenge(
        &identity.secret_key,
        identity.device_id.as_str(),
        signed_at,
        identity.token.as_str(),
        nonce,
    );
    let device = make_device_descriptor(
        identity.device_id.as_str(),
        identity.public_key.as_str(),
        signature.as_str(),
        signed_at,
        nonce,
    );
    let client = make_client_descriptor(platform, version, node_id);
    make_connect_params(identity.token.as_str(), device, client)
}

/// What the handshake does after one look for the challenge.
#[derive(Debug, Clone, PartialEq, Eq)]
pub enum NoncePoll {
    /// Go on with this challenge; it is empty where none arrived in time.
    Proceed(String),
    /// Wait this many milliseconds, then look again.
    Wait { millis: u64 },
}

/// The method of the handshake request.
pub open spec fn connect_method() -> Seq<char> {
    "connect"@
}

impl<T, S> BridgeClient<T, S> {
    /// What one look for the challenge does, after `looks_done` earlier
    /// looks. Once [`NONCE_POLL_ATTEMPTS`] looks found nothing the handshake
    /// goes on with an empty challenge. Before that, a challenge that
    /// arrived is taken out of the session; where none did, the handshake
    /// waits [`NONCE_POLL_MILLIS`] milliseconds.
    pub open spec fn challenge_polled(&self, before: &Self, looks_done: u32, out: NoncePoll) -> bool {
        &&& self.same_queue(before)
        &&& if looks_done >= NONCE_POLL_ATTEMPTS {
            out matches NoncePoll::Proceed(nonce) && nonce@.len() == 0 && self.unchanged(before)
        } else {
            match before.session() {
                None => self.session() is None && out == (NoncePoll::Wait {
                    millis: NONCE_POLL_MILLIS,
                }),
                Some(s) => self.session() is Some && {
                    let t = self.session()->0;
                    &&& t.nonce() is None
                    &&& t.counter() == s.counter()
                    &&& t.waiting() == s.waiting()
                    &&& t.node_id() == s.node_id()
                    &&& t.transport() == s.transport()
                    &&& match s.nonce() {
                        Some(arrived) => out matches NoncePoll::Proceed(nonce) && nonce@ == arrived,
                        None => out == (NoncePoll::Wait { millis: NONCE_POLL_MILLIS }),
                    }
                },
            }
        }
    }

    /// Looks once for the challenge of the gateway.
    pub fn poll_challenge(&mut self, looks_done: u32) -> (out: NoncePoll)
        requires
            old(self).wf(),
        ensures
            final(self).wf(),
            final(self).challenge_polled(old(self), looks_done, out),
    {
        if looks_done >= NONCE_POLL_ATTEMPTS {
            return NoncePoll::Proceed(String::new());
        }
        match self.take_challenge() {
            Some(nonce) => NoncePoll::Proceed(nonce),
            None => NoncePoll::Wait { millis: NONCE_POLL_MILLIS },
        }
    }

    /// What sending the handshake request does: the `connect` request of
    /// this identity goes out under the next request number, with the
    /// node's own identifier as the instance, and `slot` awaits its reply.
    pub open spec fn handshake_sent(
        &self,
        before: &Self,
        identity: IdentityView,
        nonce: Seq<char>,
        signed_at: u64,
        platform: Seq<char>,
        version: Seq<char>,
        slot: S,
        out: Result<(u64, String), (String, S)>,
    ) -> bool {
        &&& self.same_queue(before)
        &&& match out {
            Ok(sent) => before.session() is Some && self.session() is Some && {
                let s = before.session()->0;
                let t = self.session()->0;
                &&& t.counter() == s.counter() + 1
                &&& sent.0 == t.counter()
                &&& sent.1@ == request_text(
                    request_id(t.counter()),
                    connect_method(),
                    handshake_params(identity, nonce, signed_at, platform, version, s.node_id()),
                )
                &&& t.waiting() == s.waiting().push((sent.0, slot))
                &&& t.nonce() == s.nonce()
                &&& t.node_id() == s.node_id()
                &&& t.transport() == s.transport()
            },
            Err(e) => before.session() is None && self.session() is None && e.0@
                == not_connected() && e.1 == slot,
        }
    }

    /// Signs the challenge and sends the `connect` request of a node;
    /// `slot` awaits its reply.
    pub fn do_handshake(
        &mut self,
        identity: &Identity,
        nonce: &str,
        signed_at: u64,
        platform: &str,
        version: &str,
        slot: S,
    ) -> (out: Result<(u64, String), (String, S)>)
        requires
            old(self).wf(),
            old(self).can_number(1),
        ensures
            final(self).wf(),
            final(self).handshake_sent(
                old(self),
                identity@,
                nonce@,
                signed_at,
                platform@,
                version@,
                slot,
                out,
            ),
    {
        let node_id = match self.node_id() {
            Some(id) => id,
            None => String::new(),
        };
        let params = make_handshake_params(
            identity,
            nonce,
            signed_at,
            platform,
            version,
            node_id.as_str(),
        );
        self.send_request("connect", params, slot)
    }
}

} // verus!
