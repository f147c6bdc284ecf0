//! The message codec: between envelopes and relay wire messages.
//!
//! An outbound envelope is encoded to its canonical text, encrypted for the
//! counterparty, wrapped with the sender key, the fixed signing-protocol
//! kind and the recipient tag, and signed over the whole structure.  An
//! inbound message is trusted only after its signature verifies against the
//! claimed author and its ciphertext decrypts under the author's key; only
//! then is the text parsed.

use vstd::prelude::*;
use crate::envelope::decode_text;
use crate::envelope::encode_envelope;
use crate::envelope::encode_spec;
use crate::envelope::env_wf;
use crate::envelope::Envelope;
use crate::envelope::parse_envelope;
use crate::keys::copy_bytes;
use crate::keys::KeyCustodian;
use crate::envelope::EnvelopeView;
use crate::keys::nip04_decrypt_of;
use crate::keys::pk_on_curve;
use crate::keys::pubkey_of;
use crate::keys::schnorr_verify_raw;
use crate::keys::sealed_to;
use crate::keys::sig_ok;
use crate::keys::sk_ok;
use crate::envelope::lemma_envelope_round_trip;
use crate::wire::append_bytes;

verus! {

/// The relay-level kind tag of the remote-signing protocol.
pub const SIGNING_KIND: u16 = 24133;

/// The outer wire unit exchanged with the relay: author and recipient key
/// tags, the protocol kind, the encrypted envelope text, and a signature
/// over the whole structure.
#[derive(Clone, Debug, PartialEq, Eq)]
pub struct RelayMessage {
    pub author: Vec<u8>,
    pub recipient: Vec<u8>,
    pub kind: u16,
    pub ciphertext: Vec<u8>,
    pub sig: Vec<u8>,
}

pub struct RelayMessageView {
    pub author: Seq<u8>,
    pub recipient: Seq<u8>,
    pub kind: u16,
    pub ciphertext: Seq<u8>,
    pub sig: Seq<u8>,
}

impl View for RelayMessage {
    type V = RelayMessageView;

    open spec fn view(&self) -> RelayMessageView {
        RelayMessageView {
            author: self.author@,
            recipient: self.recipient@,
            kind: self.kind,
            ciphertext: self.ciphertext@,
            sig: self.sig@,
        }
    }
}

/// The bytes the signature covers: every field of the message but the
/// signature itself, in a fixed order.
pub open spec fn preimage_spec(m: RelayMessageView) -> Seq<u8> {
    m.author + m.recipient + seq![(m.kind / 256) as u8, (m.kind % 256) as u8] + m.ciphertext
}

/// Why an inbound message was discarded.
#[derive(Clone, Copy, Debug, PartialEq, Eq, Structural)]
pub enum DecodeError {
    /// The signature does not verify against the claimed author key.
    Authentication,
    /// The ciphertext does not decrypt under the author's key.
    Decrypt,
    /// The decrypted text is not a well-formed envelope.
    Malformed,
}

fn build_preimage(
    author: &Vec<u8>,
    recipient: &Vec<u8>,
    kind: u16,
    ciphertext: &Vec<u8>,
) -> (r: Vec<u8>)
    ensures
        r@ == author@ + recipient@ + seq![(kind / 256) as u8, (kind % 256) as u8] + ciphertext@,
{
    let mut v: Vec<u8> = Vec::new();
    append_bytes(&mut v, author);
    append_bytes(&mut v, recipient);
    v.push((kind / 256) as u8);
    v.push((kind % 256) as u8);
    append_bytes(&mut v, ciphertext);
    proof {
        assert(v@ =~= author@ + recipient@ + seq![(kind / 256) as u8, (kind % 256) as u8]
            + ciphertext@);
    }
    v
}

/// Encodes an envelope into a signed, encrypted relay message addressed to
/// a counterparty key.  Fails exactly when the counterparty bytes are not a
/// 32-byte curve point; on success the message carries the agent's own key
/// as author, the fixed protocol kind, a signature over the whole structure
/// that verifies against that author key, and a ciphertext sealed to the
/// counterparty holding exactly the envelope's canonical text.
pub fn encode_outbound(
    custodian: &KeyCustodian,
    env: &Envelope,
    counterparty: &Vec<u8>,
) -> (r: Option<RelayMessage>)
    requires
        env_wf(env@),
    ensures
        r is Some <==> (counterparty@.len() == 32 && pk_on_curve(counterparty@)),
        r matches Some(m) ==> ({
            &&& m.author@ == pubkey_of(custodian.secret())
            &&& m.recipient@ == counterparty@
            &&& m.kind == SIGNING_KIND
            &&& sig_ok(m.author@, preimage_spec(m@), m.sig@)
            &&& sealed_to(custodian.secret(), counterparty@, encode_spec(env@), m.ciphertext@)
        }),
{
    let text = encode_envelope(env);
    let ciphertext = match custodian.encrypt_for(counterparty, &text) {
        Option::Some(ct) => ct,
        Option::None => {
            return None;
        },
    };
    let author = custodian.public_key();
    let recipient = copy_bytes(counterparty);
    let pre = build_preimage(&author, &recipient, SIGNING_KIND, &ciphertext);
    let sig = custodian.sign(&pre);
    let m = RelayMessage { author, recipient, kind: SIGNING_KIND, ciphertext, sig };
    proof {
        assert(pre@ =~= preimage_spec(m@));
    }
    Some(m)
}

/// Decodes an inbound relay message: verifies the signature against the
/// claimed author key, then decrypts the ciphertext keyed to that author,
/// then parses the text.  Each failure names its stage and is recoverable:
/// the caller discards the message and continues.
pub fn decode_inbound(custodian: &KeyCustodian, m: &RelayMessage) -> (r: Result<
    Envelope,
    DecodeError,
>)
    ensures
        match r {
            Result::Ok(e) => {
                &&& sig_ok(m.author@, preimage_spec(m@), m.sig@)
                &&& (match nip04_decrypt_of(custodian.secret(), m.author@, m.ciphertext@) {
                    Option::Some(pt) => decode_text(pt) == Some(e@),
                    Option::None => false,
                })
            },
            Result::Err(DecodeError::Authentication) => !sig_ok(
                m.author@,
                preimage_spec(m@),
                m.sig@,
            ),
            Result::Err(DecodeError::Decrypt) => sig_ok(m.author@, preimage_spec(m@), m.sig@)
                && nip04_decrypt_of(custodian.secret(), m.author@, m.ciphertext@) is None,
            Result::Err(DecodeError::Malformed) => {
                &&& sig_ok(m.author@, preimage_spec(m@), m.sig@)
                &&& (match nip04_decrypt_of(custodian.secret(), m.author@, m.ciphertext@) {
                    Option::Some(pt) => decode_text(pt) is None,
                    Option::None => false,
                })
            },
        },
{
    let pre = build_preimage(&m.author, &m.recipient, m.kind, &m.ciphertext);
    proof {
        assert(pre@ =~= preimage_spec(m@));
    }
    if !schnorr_verify_raw(&m.author, &pre, &m.sig) {
        return Err(DecodeError::Authentication);
    }
    let pt = match custodian.decrypt_from(&m.author, &m.ciphertext) {
        Option::Some(pt) => pt,
        Option::None => {
            return Err(DecodeError::Decrypt);
        },
    };
    match parse_envelope(&pt) {
        Option::Some(e) => Ok(e),
        Option::None => Err(DecodeError::Malformed),
    }
}

/// Round trip through the transport: a ciphertext sealed by one party to
/// the other's public key decrypts, on the other side and keyed back to
/// the sender, to the canonical text of the original envelope, and that
/// text decodes to the original envelope, field for field.  Together with
/// the contract of `decode_inbound`, decoding an encoded envelope on the
/// counterparty's side returns exactly the envelope that was encoded.
pub proof fn lemma_transport_round_trip(
    sk_a: Seq<u8>,
    sk_b: Seq<u8>,
    e: EnvelopeView,
    ct: Seq<u8>,
)
    requires
        env_wf(e),
        sk_ok(sk_a),
        sk_ok(sk_b),
        sealed_to(sk_a, pubkey_of(sk_b), encode_spec(e), ct),
    ensures
        nip04_decrypt_of(sk_b, pubkey_of(sk_a), ct) == Some(encode_spec(e)),
        decode_text(encode_spec(e)) == Some(e),
{
    assert(sk_ok(sk_b) && pubkey_of(sk_b) == pubkey_of(sk_b));
    lemma_envelope_round_trip(e);
}

} // verus!
