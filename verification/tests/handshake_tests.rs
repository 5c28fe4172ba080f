use clawpal::bridge_client::{BridgeClient, FrameOutcome};
use clawpal::handshake::{
    local_token, make_client_descriptor, make_connect_params, make_device_descriptor,
    make_handshake_params, make_signing_payload, remote_identity, sign_node_challenge,
    token_of_config, GatewayCredentials, Identity, NoncePoll, NONCE_POLL_ATTEMPTS,
    NONCE_POLL_MILLIS,
};
use clawpal::json::{Json, JsonNumber};

const SECRET: [u8; 32] = [
    157, 97, 177, 157, 239, 253, 90, 96, 186, 132, 74, 244, 146, 236, 44, 196, 68, 73, 197, 105,
    123, 50, 105, 25, 112, 59, 172, 3, 28, 174, 127, 96,
];
const PUBLIC: [u8; 32] = [
    215, 90, 152, 1, 130, 177, 10, 183, 213, 75, 254, 211, 201, 100, 7, 58, 14, 225, 114, 243, 218,
    166, 35, 37, 175, 2, 26, 104, 247, 7, 81, 26,
];
const SIGNATURE: [u8; 64] = [
    3, 197, 0, 240, 177, 17, 235, 93, 190, 174, 228, 60, 167, 77, 37, 47, 227, 155, 153, 20, 249,
    63, 117, 42, 236, 231, 221, 139, 117, 120, 66, 239, 22, 149, 172, 172, 72, 121, 53, 183, 66,
    177, 165, 36, 178, 52, 148, 145, 114, 231, 154, 109, 58, 192, 110, 167, 248, 245, 107, 155,
    195, 226, 183, 5,
];
const PKCS8_HEADER: [u8; 16] = [48, 46, 2, 1, 0, 48, 5, 6, 3, 43, 101, 112, 4, 34, 4, 32];

fn base64(bytes: &[u8], last_two: [char; 2], pad: bool) -> String {
    let mut alphabet: Vec<char> = ('A'..='Z').chain('a'..='z').chain('0'..='9').collect();
    alphabet.extend(last_two);
    let mut out = String::new();
    for chunk in bytes.chunks(3) {
        let b = [chunk[0], *chunk.get(1).unwrap_or(&0), *chunk.get(2).unwrap_or(&0)];
        let n = ((b[0] as usize) << 16) | ((b[1] as usize) << 8) | (b[2] as usize);
        let digits = [n >> 18, (n >> 12) & 63, (n >> 6) & 63, n & 63];
        for (i, d) in digits.iter().enumerate() {
            if i <= chunk.len() {
                out.push(alphabet[*d]);
            } else if pad {
                out.push('=');
            }
        }
    }
    out
}

fn base64_url(bytes: &[u8]) -> String {
    base64(bytes, ['-', '_'], false)
}

fn key_text() -> String {
    let mut der = PKCS8_HEADER.to_vec();
    der.extend_from_slice(&SECRET);
    let label = ["PRIVATE", "KEY"].join(" ");
    let dashes = "-".repeat(5);
    format!(
        "{dashes}BEGIN {label}{dashes}\n{}\n{dashes}END {label}{dashes}\n",
        base64(&der, ['+', '/'], true)
    )
}

type Bridge = BridgeClient<(), u32>;

fn s(text: &str) -> Json {
    Json::Str(text.to_string())
}

fn obj(members: Vec<(&str, Json)>) -> Json {
    Json::Object(members.into_iter().map(|(k, v)| (k.to_string(), v)).collect())
}

fn identity() -> Identity {
    Identity {
        token: "tok".to_string(),
        device_id: "dev-1".to_string(),
        secret_key: SECRET,
        public_key: base64_url(&PUBLIC),
    }
}

#[test]
fn base64_helper_matches_known_values() {
    assert_eq!(base64(b"", ['+', '/'], true), "");
    assert_eq!(base64(b"f", ['+', '/'], true), "Zg==");
    assert_eq!(base64(b"fo", ['+', '/'], true), "Zm8=");
    assert_eq!(base64(b"foobar", ['+', '/'], true), "Zm9vYmFy");
    assert_eq!(base64_url(&[0xfb, 0xff]), "-_8");
    assert_eq!(base64_url(&PUBLIC).len(), 43);
    assert_eq!(base64_url(&SIGNATURE).len(), 86);
}

#[test]
fn remote_identity_reads_pem_and_derives_public_key() {
    let creds = GatewayCredentials {
        token: "tok".to_string(),
        device_id: "dev-1".to_string(),
        private_key_pem: key_text(),
    };
    assert_eq!(remote_identity(&creds), Ok(identity()));
}

#[test]
fn malformed_key_fails_with_cause() {
    let creds = GatewayCredentials {
        token: "tok".to_string(),
        device_id: "dev-1".to_string(),
        private_key_pem: "not a key".to_string(),
    };
    let err = remote_identity(&creds).unwrap_err();
    assert!(err.starts_with("Failed to parse remote Ed25519 private key: "));
    assert!(err.len() > "Failed to parse remote Ed25519 private key: ".len());
}

#[test]
fn signing_payload_format() {
    assert_eq!(
        make_signing_payload("dev-1", 1700000000000, "tok", "nonce-1"),
        "v2|dev-1|node-host|node|node||1700000000000|tok|nonce-1"
    );
    assert_eq!(make_signing_payload("", 0, "", ""), "v2||node-host|node|node||0||");
    assert_eq!(
        make_signing_payload("d", u64::MAX, "t", "n"),
        "v2|d|node-host|node|node||18446744073709551615|t|n"
    );
}

#[test]
fn challenge_signature_is_base64_url_of_ed25519() {
    assert_eq!(
        sign_node_challenge(&SECRET, "dev-1", 1700000000000, "tok", "nonce-1"),
        base64_url(&SIGNATURE)
    );
    assert_ne!(
        sign_node_challenge(&SECRET, "dev-1", 1700000000000, "tok", "nonce-2"),
        base64_url(&SIGNATURE)
    );
}

#[test]
fn device_descriptor_omits_empty_nonce() {
    let with = make_device_descriptor("dev-1", "pk", "sig", 42, "abc");
    assert_eq!(
        with,
        obj(vec![
            ("id", s("dev-1")),
            ("publicKey", s("pk")),
            ("signature", s("sig")),
            ("signedAt", Json::Number(JsonNumber::PosInt(42))),
            ("nonce", s("abc")),
        ])
    );
    let without = make_device_descriptor("dev-1", "pk", "sig", 42, "");
    assert_eq!(without.get("nonce"), None);
    assert_eq!(without.get("signedAt"), Some(&Json::Number(JsonNumber::PosInt(42))));
}

#[test]
fn client_descriptor_fields() {
    assert_eq!(
        make_client_descriptor("linux", "1.2.3", "my-host"),
        obj(vec![
            ("id", s("node-host")),
            ("displayName", s("ClawPal")),
            ("platform", s("linux")),
            ("mode", s("node")),
            ("version", s("1.2.3")),
            ("instanceId", s("my-host")),
        ])
    );
}

#[test]
fn connect_params_text() {
    let params = make_connect_params("tok", s("D"), s("C"));
    assert_eq!(
        params.to_text(),
        "{\"auth\":{\"token\":\"tok\"},\"caps\":[\"system\"],\"client\":\"C\",\"commands\":[\"system.run\"],\"device\":\"D\",\"maxProtocol\":3,\"minProtocol\":3,\"role\":\"node\",\"scopes\":[]}"
    );
}

#[test]
fn handshake_params_carry_signature_and_instance() {
    let params = make_handshake_params(&identity(), "nonce-1", 1700000000000, "linux", "0.1.0", "my-host");
    let device = params.get("device").unwrap();
    assert_eq!(device.get("signature"), Some(&s(&base64_url(&SIGNATURE))));
    assert_eq!(device.get("publicKey"), Some(&s(&base64_url(&PUBLIC))));
    assert_eq!(device.get("nonce"), Some(&s("nonce-1")));
    assert_eq!(device.get("id"), Some(&s("dev-1")));
    assert_eq!(params.get("client").unwrap().get("instanceId"), Some(&s("my-host")));
    assert_eq!(params.get("role"), Some(&s("node")));
    assert_eq!(params.get("auth").unwrap().get("token"), Some(&s("tok")));
}

#[test]
fn do_handshake_sends_connect_and_awaits_reply() {
    let mut b = Bridge::new();
    b.connect_as((), Some("my-host".to_string()));
    let (key, text) = b
        .do_handshake(&identity(), "", 1700000000000, "linux", "0.1.0", 77)
        .unwrap();
    assert_eq!(key, 1);
    let frame = Json::parse(&text).unwrap();
    assert_eq!(frame.get("type"), Some(&s("req")));
    assert_eq!(frame.get("id"), Some(&s("n1")));
    assert_eq!(frame.get("method"), Some(&s("connect")));
    let params = frame.get("params").unwrap();
    assert_eq!(params.get("device").unwrap().get("nonce"), None);
    assert_eq!(params.get("client").unwrap().get("instanceId"), Some(&s("my-host")));
    assert_eq!(b.waiting_count(), 1);
    let reply = obj(vec![("type", s("res")), ("id", s("n1")), ("ok", Json::Bool(true))]);
    match b.handle_frame(&reply) {
        FrameOutcome::Reply { slot, .. } => assert_eq!(slot, 77),
        _ => panic!("expected a reply"),
    }
}

#[test]
fn do_handshake_without_session_fails() {
    let mut b = Bridge::new();
    assert_eq!(
        b.do_handshake(&identity(), "", 1, "linux", "0.1.0", 77),
        Err(("Node not connected".to_string(), 77))
    );
}

#[test]
fn nonce_poll_waits_then_proceeds_empty() {
    let mut b = Bridge::new();
    b.connect_as((), None);
    assert_eq!(NONCE_POLL_ATTEMPTS, 30);
    assert_eq!(NONCE_POLL_MILLIS, 100);
    for looks in 0..30 {
        assert_eq!(b.poll_challenge(looks), NoncePoll::Wait { millis: 100 });
    }
    assert_eq!(b.poll_challenge(30), NoncePoll::Proceed(String::new()));
    assert_eq!(b.poll_challenge(31), NoncePoll::Proceed(String::new()));
}

#[test]
fn nonce_poll_takes_arrived_challenge() {
    let mut b = Bridge::new();
    b.connect_as((), None);
    b.handle_text("{\"type\":\"event\",\"event\":\"connect.challenge\",\"payload\":{\"nonce\":\"xyz\"}}");
    assert_eq!(b.poll_challenge(3), NoncePoll::Proceed("xyz".to_string()));
    assert_eq!(b.poll_challenge(4), NoncePoll::Wait { millis: 100 });
}

#[test]
fn nonce_poll_without_session_waits() {
    let mut b = Bridge::new();
    assert_eq!(b.poll_challenge(0), NoncePoll::Wait { millis: 100 });
    assert_eq!(b.poll_challenge(30), NoncePoll::Proceed(String::new()));
}

#[test]
fn local_token_from_config_text() {
    assert_eq!(local_token(Some("{\"gateway\":{\"auth\":{\"token\":\"abc\"}}}")), "abc");
    assert_eq!(local_token(Some("{\"gateway\":{\"auth\":{\"token\":5}}}")), "");
    assert_eq!(local_token(Some("{\"gateway\":{}}")), "");
    assert_eq!(local_token(Some("not json")), "");
    assert_eq!(local_token(None), "");
    assert_eq!(token_of_config(None), "");
    let cfg = obj(vec![("gateway", obj(vec![("auth", obj(vec![("token", s("t"))]))]))]);
    assert_eq!(token_of_config(Some(&cfg)), "t");
}
