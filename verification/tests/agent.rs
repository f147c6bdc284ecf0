use nostr_signer::codec::{decode_inbound, encode_outbound, DecodeError, RelayMessage, SIGNING_KIND};
use nostr_signer::dispatcher::{Agent, Decision, Received};
use nostr_signer::envelope::{encode_envelope, parse_envelope, Envelope, ResponseBody};
use nostr_signer::keys::KeyCustodian;
use nostr_signer::session::parse_connect_uri;

fn custodian(byte: u8) -> KeyCustodian {
    KeyCustodian::from_secret_bytes(vec![byte; 32]).expect("valid secret")
}

fn hexify(bytes: &[u8]) -> Vec<u8> {
    let digits = b"0123456789abcdef";
    let mut out = Vec::new();
    for b in bytes {
        out.push(digits[(b >> 4) as usize]);
        out.push(digits[(b & 15) as usize]);
    }
    out
}

fn request(id: &[u8], method: &[u8], params: &[&[u8]]) -> Envelope {
    Envelope::Request {
        id: id.to_vec(),
        method: method.to_vec(),
        params: params.iter().map(|p| p.to_vec()).collect(),
    }
}

/// Sends a request envelope from the application keypair to the agent.
fn send_to(agent_pk: &Vec<u8>, app: &KeyCustodian, env: &Envelope) -> RelayMessage {
    encode_outbound(app, env, agent_pk).expect("agent key is a curve point")
}

#[test]
fn envelope_round_trip_request() {
    let e = request(b"42", b"get-public-key", &[b"alpha", b""]);
    let text = encode_envelope(&e);
    assert_eq!(parse_envelope(&text), Some(e));
}

#[test]
fn envelope_round_trip_response() {
    let ok = Envelope::Response { id: b"7".to_vec(), body: ResponseBody::Result(b"x".to_vec()) };
    let err = Envelope::Response { id: b"8".to_vec(), body: ResponseBody::Error(b"e".to_vec()) };
    assert_eq!(parse_envelope(&encode_envelope(&ok)), Some(ok));
    assert_eq!(parse_envelope(&encode_envelope(&err)), Some(err));
}

#[test]
fn envelope_rejects_garbage() {
    assert_eq!(parse_envelope(&b"junk".to_vec()), None);
    assert_eq!(parse_envelope(&Vec::new()), None);
    let e = request(b"1", b"ping", &[]);
    let mut text = encode_envelope(&e);
    text.pop();
    assert_eq!(parse_envelope(&text), None);
}

#[test]
fn codec_round_trip() {
    let a = custodian(1);
    let b = custodian(2);
    let e = request(b"42", b"ping", &[b"p0", b"p1"]);
    let m = encode_outbound(&a, &e, &b.public_key()).expect("encode");
    assert_eq!(m.kind, SIGNING_KIND);
    assert_eq!(m.author, a.public_key());
    assert_eq!(m.recipient, b.public_key());
    assert_eq!(decode_inbound(&b, &m), Ok(e));
}

#[test]
fn authentication_tamper_fails() {
    let a = custodian(1);
    let b = custodian(2);
    let e = request(b"42", b"ping", &[]);
    let mut m = encode_outbound(&a, &e, &b.public_key()).expect("encode");
    m.sig[10] ^= 0x01;
    assert_eq!(decode_inbound(&b, &m), Err(DecodeError::Authentication));
}

#[test]
fn decrypt_isolation() {
    let a = custodian(1);
    let b = custodian(2);
    let c = custodian(3);
    let e = request(b"42", b"ping", &[]);
    let m = encode_outbound(&a, &e, &b.public_key()).expect("encode");
    assert_eq!(decode_inbound(&c, &m), Err(DecodeError::Decrypt));
}

#[test]
fn get_public_key_approved() {
    let a = custodian(1);
    let app = custodian(2);
    let mut agent = Agent::new(custodian(1), app.public_key());
    let m = send_to(&a.public_key(), &app, &request(b"42", b"get-public-key", &[]));
    assert_eq!(agent.receive(&m), Received::NeedsApproval);
    let out = match agent.decide(true) {
        Decision::Respond(out) => out,
        other => panic!("expected a response, got {other:?}"),
    };
    let reply = decode_inbound(&app, &out).expect("decode reply");
    let expected = Envelope::Response {
        id: b"42".to_vec(),
        body: ResponseBody::Result(hexify(&a.public_key())),
    };
    assert_eq!(reply, expected);
}

#[test]
fn sign_event_denied_sends_nothing() {
    let a = custodian(1);
    let app = custodian(2);
    let mut agent = Agent::new(custodian(1), app.public_key());
    let m = send_to(&a.public_key(), &app, &request(b"7", b"sign-event", &[b"unsigned event"]));
    assert_eq!(agent.receive(&m), Received::NeedsApproval);
    assert_eq!(agent.decide(false), Decision::Denied);
    assert_eq!(agent.decide(false), Decision::Idle);
}

#[test]
fn sign_event_approved_signature_verifies() {
    let a = custodian(1);
    let app = custodian(2);
    let mut agent = Agent::new(custodian(1), app.public_key());
    let event = b"unsigned event bytes".to_vec();
    let m = send_to(&a.public_key(), &app, &request(b"7", b"sign-event", &[&event]));
    assert_eq!(agent.receive(&m), Received::NeedsApproval);
    let out = match agent.decide(true) {
        Decision::Respond(out) => out,
        other => panic!("expected a response, got {other:?}"),
    };
    let reply = decode_inbound(&app, &out).expect("decode reply");
    let (id, body) = match reply {
        Envelope::Response { id, body } => (id, body),
        other => panic!("expected a response envelope, got {other:?}"),
    };
    assert_eq!(id, b"7".to_vec());
    let hexsig = match body {
        ResponseBody::Result(r) => r,
        other => panic!("expected a result, got {other:?}"),
    };
    assert_eq!(hexsig.len(), 128);
    let mut sig = [0u8; 64];
    for i in 0..64 {
        let hi = (hexsig[2 * i] as char).to_digit(16).unwrap() as u8;
        let lo = (hexsig[2 * i + 1] as char).to_digit(16).unwrap() as u8;
        sig[i] = hi * 16 + lo;
    }
    let secp = secp256k1::Secp256k1::verification_only();
    let pk = secp256k1::XOnlyPublicKey::from_slice(&a.public_key()).unwrap();
    let sig = secp256k1::schnorr::Signature::from_byte_array(sig);
    secp.verify_schnorr(&sig, &event, &pk).expect("signature verifies");
}

#[test]
fn sign_event_bad_structure_errors() {
    let a = custodian(1);
    let app = custodian(2);
    let mut agent = Agent::new(custodian(1), app.public_key());
    let m = send_to(&a.public_key(), &app, &request(b"9", b"sign-event", &[]));
    assert_eq!(agent.receive(&m), Received::NeedsApproval);
    let out = match agent.decide(true) {
        Decision::Respond(out) => out,
        other => panic!("expected a response, got {other:?}"),
    };
    let reply = decode_inbound(&app, &out).expect("decode reply");
    let expected = Envelope::Response {
        id: b"9".to_vec(),
        body: ResponseBody::Error(b"invalid-event".to_vec()),
    };
    assert_eq!(reply, expected);
}

#[test]
fn tampered_ciphertext_is_dropped_and_loop_continues() {
    let a = custodian(1);
    let app = custodian(2);
    let mut agent = Agent::new(custodian(1), app.public_key());
    let mut m = send_to(&a.public_key(), &app, &request(b"1", b"ping", &[]));
    m.ciphertext[0] |= 0x80;
    // the signature no longer covers the bytes, so the message is rejected
    // before decryption is even tried
    match agent.receive(&m) {
        Received::Rejected(_) => {}
        other => panic!("expected a rejection, got {other:?}"),
    }
    // no response is pending and the loop goes on: a good message still works
    assert_eq!(agent.decide(true), Decision::Idle);
    let good = send_to(&a.public_key(), &app, &request(b"2", b"ping", &[]));
    assert_eq!(agent.receive(&good), Received::NeedsApproval);
}

#[test]
fn second_request_waits_for_first_decision() {
    let a = custodian(1);
    let app = custodian(2);
    let mut agent = Agent::new(custodian(1), app.public_key());
    let first = send_to(&a.public_key(), &app, &request(b"1", b"sign-event", &[b"ev"]));
    let second = send_to(&a.public_key(), &app, &request(b"2", b"get-public-key", &[]));
    assert_eq!(agent.receive(&first), Received::NeedsApproval);
    assert_eq!(agent.receive(&second), Received::Busy);
    assert_eq!(agent.receive(&second), Received::Busy);
    match agent.decide(true) {
        Decision::Respond(_) => {}
        other => panic!("expected a response, got {other:?}"),
    }
    assert_eq!(agent.receive(&second), Received::NeedsApproval);
}

#[test]
fn connect_request_announces_own_key() {
    let a = custodian(1);
    let app = custodian(2);
    let agent = Agent::new(custodian(1), app.public_key());
    let m = agent.connect_request().expect("remote key is on the curve");
    assert_eq!(m.recipient, app.public_key());
    assert_eq!(m.kind, SIGNING_KIND);
    let env = decode_inbound(&app, &m).expect("decode connect");
    let expected = request(b"1", b"connect", &[&hexify(&a.public_key())]);
    assert_eq!(env, expected);
}

#[test]
fn unknown_method_is_dropped() {
    let a = custodian(1);
    let app = custodian(2);
    let mut agent = Agent::new(custodian(1), app.public_key());
    let m = send_to(&a.public_key(), &app, &request(b"5", b"frobnicate", &[]));
    assert_eq!(agent.receive(&m), Received::Dropped);
    assert_eq!(agent.decide(true), Decision::Idle);
}

#[test]
fn get_relays_is_answered_with_an_error() {
    let a = custodian(1);
    let app = custodian(2);
    let mut agent = Agent::new(custodian(1), app.public_key());
    let m = send_to(&a.public_key(), &app, &request(b"6", b"get-relays", &[]));
    assert_eq!(agent.receive(&m), Received::NeedsApproval);
    let out = match agent.decide(true) {
        Decision::Respond(out) => out,
        other => panic!("expected a response, got {other:?}"),
    };
    let reply = decode_inbound(&app, &out).expect("decode reply");
    let expected = Envelope::Response {
        id: b"6".to_vec(),
        body: ResponseBody::Error(b"unsupported-method".to_vec()),
    };
    assert_eq!(reply, expected);
}

#[test]
fn wrong_kind_or_recipient_is_dropped() {
    let a = custodian(1);
    let app = custodian(2);
    let mut agent = Agent::new(custodian(1), app.public_key());
    let mut wrong_kind = send_to(&a.public_key(), &app, &request(b"1", b"ping", &[]));
    wrong_kind.kind = 1;
    assert_eq!(agent.receive(&wrong_kind), Received::Dropped);
    let for_other = send_to(&custodian(3).public_key(), &app, &request(b"1", b"ping", &[]));
    assert_eq!(agent.receive(&for_other), Received::Dropped);
}

#[test]
fn simple_methods_are_answered() {
    let a = custodian(1);
    let app = custodian(2);
    let mut agent = Agent::new(custodian(1), app.public_key());
    let cases: Vec<(&[u8], &[u8], ResponseBody)> = vec![
        (b"10", b"ping", ResponseBody::Result(b"pong".to_vec())),
        (b"11", b"connect", ResponseBody::Result(b"ack".to_vec())),
        (
            b"12",
            b"describe",
            ResponseBody::Result(b"connect,describe,get-public-key,ping,sign-event".to_vec()),
        ),
    ];
    for (id, method, body) in cases {
        let m = send_to(&a.public_key(), &app, &request(id, method, &[]));
        assert_eq!(agent.receive(&m), Received::NeedsApproval);
        let out = match agent.decide(true) {
            Decision::Respond(out) => out,
            other => panic!("expected a response, got {other:?}"),
        };
        let reply = decode_inbound(&app, &out).expect("decode reply");
        assert_eq!(reply, Envelope::Response { id: id.to_vec(), body });
    }
}

#[test]
fn pending_description_names_method_and_id() {
    let a = custodian(1);
    let app = custodian(2);
    let mut agent = Agent::new(custodian(1), app.public_key());
    assert_eq!(agent.pending_description(), None);
    let m = send_to(&a.public_key(), &app, &request(b"7", b"sign-event", &[b"ev"]));
    assert_eq!(agent.receive(&m), Received::NeedsApproval);
    assert_eq!(agent.pending_description(), Some(b"sign-event 7".to_vec()));
}

#[test]
fn public_key_is_stable() {
    let a = custodian(1);
    let first = a.public_key();
    let second = a.public_key();
    assert_eq!(first, second);
    assert_eq!(custodian(1).public_key(), first);
}

#[test]
fn invalid_secret_key_is_fatal() {
    assert!(KeyCustodian::from_secret_bytes(vec![0; 32]).is_none());
    assert!(KeyCustodian::from_secret_bytes(vec![1; 31]).is_none());
    assert!(KeyCustodian::from_secret_str("not a key").is_none());
}

#[test]
fn secret_key_parses_from_hex() {
    let hex: String = "01".repeat(32);
    let c = KeyCustodian::from_secret_str(&hex).expect("hex secret parses");
    assert_eq!(c.public_key(), custodian(1).public_key());
}

#[test]
fn malformed_plaintext_is_rejected() {
    // a message built directly with the outside crate: correctly signed and
    // encrypted, but the plaintext is no envelope
    let a = custodian(1);
    let app_sk = nostr::key::SecretKey::from_slice(&[2u8; 32]).unwrap();
    let app_keys = nostr::key::Keys::new(app_sk.clone());
    let agent_pk_bytes = a.public_key();
    let agent_pk = nostr::key::PublicKey::from_slice(&agent_pk_bytes).unwrap();
    let ciphertext = nostr::nips::nip04::encrypt(&app_sk, &agent_pk, b"not an envelope")
        .unwrap()
        .into_bytes();
    let author = app_keys.public_key().to_bytes().to_vec();
    let mut pre = Vec::new();
    pre.extend_from_slice(&author);
    pre.extend_from_slice(&agent_pk_bytes);
    pre.push((SIGNING_KIND / 256) as u8);
    pre.push((SIGNING_KIND % 256) as u8);
    pre.extend_from_slice(&ciphertext);
    let sig = app_keys.sign_schnorr(&pre).to_bytes().to_vec();
    let m = RelayMessage {
        author,
        recipient: agent_pk_bytes,
        kind: SIGNING_KIND,
        ciphertext,
        sig,
    };
    assert_eq!(decode_inbound(&a, &m), Err(DecodeError::Malformed));
}

#[test]
fn startup_announces_to_the_uri_key() {
    let app = custodian(2);
    let mut uri = b"nostrconnect://".to_vec();
    uri.extend_from_slice(&hexify(&app.public_key()));
    uri.extend_from_slice(b"?relay=wss://relay.example.com");
    let session = parse_connect_uri(&uri).expect("well-formed uri");
    let agent = Agent::from_session(custodian(1), &session);
    let m = agent.connect_request().expect("remote key on the curve");
    assert_eq!(m.recipient, app.public_key());
    let env = decode_inbound(&app, &m).expect("decode connect");
    match env {
        Envelope::Request { method, .. } => assert_eq!(method, b"connect".to_vec()),
        other => panic!("expected a request, got {other:?}"),
    }
}

#[test]
fn connect_uri_parses() {
    let app = custodian(2);
    let mut uri = b"nostrconnect://".to_vec();
    uri.extend_from_slice(&hexify(&app.public_key()));
    uri.extend_from_slice(b"?relay=wss://relay.example.com&name=app&relay=ws://backup.example.com&secret=s1&x=ignored");
    let d = parse_connect_uri(&uri).expect("well-formed uri");
    assert_eq!(d.relay_url, b"wss://relay.example.com".to_vec());
    assert_eq!(d.remote_pk, app.public_key());
    assert_eq!(d.extra_relays, vec![b"ws://backup.example.com".to_vec()]);
    assert_eq!(d.name, Some(b"app".to_vec()));
    assert_eq!(d.secret, Some(b"s1".to_vec()));
}

#[test]
fn connect_uri_rejects_malformed_input() {
    let app = custodian(2);
    let hex = hexify(&app.public_key());
    let mk = |scheme: &[u8], pk: &[u8], query: &[u8]| {
        let mut u = scheme.to_vec();
        u.extend_from_slice(pk);
        u.extend_from_slice(query);
        u
    };
    assert!(parse_connect_uri(&mk(b"nostrconnect://", &hex, b"?relay=wss://r.example")).is_ok());
    assert!(parse_connect_uri(&mk(b"http://xxxxxxxxxxx", &hex, b"?relay=wss://r.example")).is_err());
    assert!(parse_connect_uri(&mk(b"nostrconnect://", &b"zz".repeat(32), b"?relay=wss://r.example")).is_err());
    assert!(parse_connect_uri(&mk(b"nostrconnect://", &hex, b"relay=wss://r.example")).is_err());
    assert!(parse_connect_uri(&mk(b"nostrconnect://", &hex, b"?name=app")).is_err());
    assert!(parse_connect_uri(&mk(b"nostrconnect://", &hex, b"?relay=http://r.example")).is_err());
    assert!(parse_connect_uri(&mk(b"nostrconnect://", &hex, b"?relay")).is_err());
    assert!(parse_connect_uri(&b"nostrconnect://".to_vec()).is_err());
}
