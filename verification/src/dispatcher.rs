//! The request dispatcher: the agent's state machine.
//!
//! The agent waits for one inbound message at a time.  A message is first
//! re-validated (protocol kind and recipient tag), then decoded by the
//! codec; a decoded request with a recognized method becomes the pending
//! request, and nothing else is accepted until the operator's approval
//! decision resolves it.  A denied request is dropped without any response;
//! an approved one produces exactly one response, correlated to the
//! request's id and addressed to its author.

use vstd::prelude::*;
use crate::codec::decode_inbound;
use crate::codec::DecodeError;
use crate::codec::encode_outbound;
use crate::codec::preimage_spec;
use crate::codec::RelayMessage;
use crate::codec::RelayMessageView;
use crate::codec::SIGNING_KIND;
use crate::envelope::BodyView;
use crate::envelope::decode_text;
use crate::envelope::encode_spec;
use crate::envelope::env_wf;
use crate::envelope::Envelope;
use crate::envelope::EnvelopeView;
use crate::envelope::ResponseBody;
use crate::keys::copy_bytes;
use crate::keys::KeyCustodian;
use crate::keys::nip04_decrypt_of;
use crate::keys::pk_on_curve;
use crate::keys::pubkey_of;
use crate::keys::sealed_to;
use crate::keys::sig_ok;
use crate::session::SessionDescriptor;
use crate::wire::append_bytes;
use crate::wire::hex_digit;
use crate::wire::hex_digit_byte;

verus! {

/// Compares two byte vectors.
pub fn vec_eq(a: &Vec<u8>, b: &Vec<u8>) -> (r: bool)
    ensures
        r == (a@ == b@),
{
    if a.len() != b.len() {
        return false;
    }
    let mut i: usize = 0;
    while i < a.len()
        invariant
            i <= a@.len(),
            a@.len() == b@.len(),
            forall|k: int| 0 <= k < i ==> a@[k] == b@[k],
        decreases a@.len() - i,
    {
        if a[i] != b[i] {
            return false;
        }
        i = i + 1;
    }
    proof {
        assert(a@ =~= b@);
    }
    true
}

/// The lowercase hex spelling of a byte string.
pub open spec fn hex_of_bytes(s: Seq<u8>) -> Seq<u8> {
    Seq::new(
        2 * s.len(),
        |i: int|
            if i % 2 == 0 {
                hex_digit((s[i / 2] / 16) as nat)
            } else {
                hex_digit((s[i / 2] % 16) as nat)
            },
    )
}

/// Writes a byte string in lowercase hex.
pub fn hex_encode(s: &Vec<u8>) -> (r: Vec<u8>)
    requires
        s@.len() < 0x1000_0000,
    ensures
        r@ == hex_of_bytes(s@),
{
    let mut out: Vec<u8> = Vec::new();
    let mut i: usize = 0;
    while i < s.len()
        invariant
            i <= s@.len(),
            s@.len() < 0x1000_0000,
            out@.len() == 2 * i,
            out@ == hex_of_bytes(s@).take(2 * i),
        decreases s@.len() - i,
    {
        let b = s[i];
        out.push(hex_digit_byte(b / 16));
        out.push(hex_digit_byte(b % 16));
        proof {
            assert(hex_of_bytes(s@)[2 * i] == hex_digit((b / 16) as nat));
            assert(hex_of_bytes(s@)[2 * i + 1] == hex_digit((b % 16) as nat));
            assert(out@ =~= hex_of_bytes(s@).take(2 * (i + 1)));
        }
        i = i + 1;
    }
    proof {
        assert(out@ =~= hex_of_bytes(s@));
    }
    out
}

pub open spec fn name_connect() -> Seq<u8> {
    seq![0x63u8, 0x6f, 0x6e, 0x6e, 0x65, 0x63, 0x74]
}

pub open spec fn name_describe() -> Seq<u8> {
    seq![0x64u8, 0x65, 0x73, 0x63, 0x72, 0x69, 0x62, 0x65]
}

pub open spec fn name_get_public_key() -> Seq<u8> {
    seq![0x67u8, 0x65, 0x74, 0x2d, 0x70, 0x75, 0x62, 0x6c, 0x69, 0x63, 0x2d, 0x6b, 0x65, 0x79]
}

pub open spec fn name_sign_event() -> Seq<u8> {
    seq![0x73u8, 0x69, 0x67, 0x6e, 0x2d, 0x65, 0x76, 0x65, 0x6e, 0x74]
}

pub open spec fn name_ping() -> Seq<u8> {
    seq![0x70u8, 0x69, 0x6e, 0x67]
}

pub open spec fn name_get_relays() -> Seq<u8> {
    seq![0x67u8, 0x65, 0x74, 0x2d, 0x72, 0x65, 0x6c, 0x61, 0x79, 0x73]
}

/// The method name "connect".
pub fn connect_name() -> (r: Vec<u8>)
    ensures
        r@ == name_connect(),
{
    let v = vec![0x63u8, 0x6f, 0x6e, 0x6e, 0x65, 0x63, 0x74];
    proof {
        assert(v@ =~= name_connect());
    }
    v
}

/// The method name "describe".
pub fn describe_name() -> (r: Vec<u8>)
    ensures
        r@ == name_describe(),
{
    let v = vec![0x64u8, 0x65, 0x73, 0x63, 0x72, 0x69, 0x62, 0x65];
    proof {
        assert(v@ =~= name_describe());
    }
    v
}

/// The method name "get-public-key".
pub fn get_public_key_name() -> (r: Vec<u8>)
    ensures
        r@ == name_get_public_key(),
{
    let v = vec![0x67u8, 0x65, 0x74, 0x2d, 0x70, 0x75, 0x62, 0x6c, 0x69, 0x63, 0x2d, 0x6b, 0x65, 0x79];
    proof {
        assert(v@ =~= name_get_public_key());
    }
    v
}

/// The method name "sign-event".
pub fn sign_event_name() -> (r: Vec<u8>)
    ensures
        r@ == name_sign_event(),
{
    let v = vec![0x73u8, 0x69, 0x67, 0x6e, 0x2d, 0x65, 0x76, 0x65, 0x6e, 0x74];
    proof {
        assert(v@ =~= name_sign_event());
    }
    v
}

/// The method name "ping".
pub fn ping_name() -> (r: Vec<u8>)
    ensures
        r@ == name_ping(),
{
    let v = vec![0x70u8, 0x69, 0x6e, 0x67];
    proof {
        assert(v@ =~= name_ping());
    }
    v
}

/// The method name "get-relays".
pub fn get_relays_name() -> (r: Vec<u8>)
    ensures
        r@ == name_get_relays(),
{
    let v = vec![0x67u8, 0x65, 0x74, 0x2d, 0x72, 0x65, 0x6c, 0x61, 0x79, 0x73];
    proof {
        assert(v@ =~= name_get_relays());
    }
    v
}

/// The request kinds the agent recognizes.  `GetRelays` is recognized but
/// not implemented here: after approval it is answered with an explicit
/// error response.  Anything else is `Unknown` and silently dropped.
#[derive(Clone, Copy, Debug, PartialEq, Eq, Structural)]
pub enum MethodKind {
    Connect,
    Describe,
    GetPublicKey,
    SignEvent,
    Ping,
    GetRelays,
    Unknown,
}

pub open spec fn method_kind_spec(m: Seq<u8>) -> MethodKind {
    if m == name_connect() {
        MethodKind::Connect
    } else if m == name_describe() {
        MethodKind::Describe
    } else if m == name_get_public_key() {
        MethodKind::GetPublicKey
    } else if m == name_sign_event() {
        MethodKind::SignEvent
    } else if m == name_ping() {
        MethodKind::Ping
    } else if m == name_get_relays() {
        MethodKind::GetRelays
    } else {
        MethodKind::Unknown
    }
}

/// Classifies a method name.
pub fn method_kind(m: &Vec<u8>) -> (r: MethodKind)
    ensures
        r == method_kind_spec(m@),
{
    if vec_eq(m, &connect_name()) {
        MethodKind::Connect
    } else if vec_eq(m, &describe_name()) {
        MethodKind::Describe
    } else if vec_eq(m, &get_public_key_name()) {
        MethodKind::GetPublicKey
    } else if vec_eq(m, &sign_event_name()) {
        MethodKind::SignEvent
    } else if vec_eq(m, &ping_name()) {
        MethodKind::Ping
    } else if vec_eq(m, &get_relays_name()) {
        MethodKind::GetRelays
    } else {
        MethodKind::Unknown
    }
}

pub open spec fn ack_payload() -> Seq<u8> {
    seq![0x61u8, 0x63, 0x6b]
}

pub open spec fn pong_payload() -> Seq<u8> {
    seq![0x70u8, 0x6f, 0x6e, 0x67]
}

/// The static capability manifest: the implemented methods, comma-separated.
pub open spec fn manifest_payload() -> Seq<u8> {
    name_connect() + seq![0x2cu8] + name_describe() + seq![0x2cu8] + name_get_public_key()
        + seq![0x2cu8] + name_ping() + seq![0x2cu8] + name_sign_event()
}

pub open spec fn unsupported_payload() -> Seq<u8> {
    seq![0x75u8, 0x6e, 0x73, 0x75, 0x70, 0x70, 0x6f, 0x72, 0x74, 0x65, 0x64, 0x2d, 0x6d, 0x65, 0x74, 0x68, 0x6f, 0x64]
}

pub open spec fn invalid_event_payload() -> Seq<u8> {
    seq![0x69u8, 0x6e, 0x76, 0x61, 0x6c, 0x69, 0x64, 0x2d, 0x65, 0x76, 0x65, 0x6e, 0x74]
}

fn manifest_vec() -> (r: Vec<u8>)
    ensures
        r@ == manifest_payload(),
{
    let mut v = connect_name();
    v.push(0x2c);
    append_bytes(&mut v, &describe_name());
    v.push(0x2c);
    append_bytes(&mut v, &get_public_key_name());
    v.push(0x2c);
    append_bytes(&mut v, &ping_name());
    v.push(0x2c);
    append_bytes(&mut v, &sign_event_name());
    proof {
        assert(v@ =~= manifest_payload());
    }
    v
}

/// A decoded request waiting for the operator's approval decision.
pub struct Pending {
    pub id: Vec<u8>,
    pub method: Vec<u8>,
    pub params: Vec<Vec<u8>>,
    pub author: Vec<u8>,
}

pub struct PendingView {
    pub id: Seq<u8>,
    pub method: Seq<u8>,
    pub params: Seq<Seq<u8>>,
    pub author: Seq<u8>,
}

impl View for Pending {
    type V = PendingView;

    open spec fn view(&self) -> PendingView {
        PendingView {
            id: self.id@,
            method: self.method@,
            params: self.params.deep_view(),
            author: self.author@,
        }
    }
}

/// What became of one inbound message.
#[derive(Clone, Copy, Debug, PartialEq, Eq, Structural)]
pub enum Received {
    /// A request is already awaiting approval; the message was not touched
    /// and must be redelivered after the decision resolves.
    Busy,
    /// Filtered out, not a request, or an unrecognized method: dropped in
    /// silence, by design.
    Dropped,
    /// The message failed authentication, decryption or parsing: discarded,
    /// and the loop continues.
    Rejected(DecodeError),
    /// A recognized request is now pending the operator's decision.
    NeedsApproval,
}

/// What one inbound relay message leads to, given the agent's secret.
pub enum StepSpec {
    Dropped,
    Rejected(DecodeError),
    Pend(PendingView),
}

pub open spec fn step_spec(secret: Seq<u8>, m: RelayMessageView) -> StepSpec {
    if !(m.kind == SIGNING_KIND && m.recipient == pubkey_of(secret)) {
        StepSpec::Dropped
    } else if !sig_ok(m.author, preimage_spec(m), m.sig) {
        StepSpec::Rejected(DecodeError::Authentication)
    } else {
        match nip04_decrypt_of(secret, m.author, m.ciphertext) {
            Option::None => StepSpec::Rejected(DecodeError::Decrypt),
            Option::Some(pt) => match decode_text(pt) {
                Option::None => StepSpec::Rejected(DecodeError::Malformed),
                Option::Some(e) => match e {
                    EnvelopeView::Response { .. } => StepSpec::Dropped,
                    EnvelopeView::Request { id, method, params } => if method_kind_spec(method)
                        is Unknown {
                        StepSpec::Dropped
                    } else {
                        StepSpec::Pend(
                            PendingView { id, method, params, author: m.author },
                        )
                    },
                },
            },
        }
    }
}

/// The outcome of an approval decision.
#[derive(Clone, Debug, PartialEq, Eq)]
pub enum Decision {
    /// No request was pending.
    Idle,
    /// The operator denied: the request is dropped with no response.
    Denied,
    /// The operator approved: exactly one response, to be published.
    Respond(RelayMessage),
    /// The requester's key is not a curve point, so no response can be
    /// encrypted for it; the request is dropped.
    Failed,
}

/// What an approved pending request's published response must be: from
/// the agent, to the requester, under the protocol kind, signed over the
/// whole structure, and sealed for the requester holding the canonical
/// text of the envelope the method deserves.
pub open spec fn respond_ok(secret: Seq<u8>, p: PendingView, msg: RelayMessageView) -> bool {
    &&& p.author.len() == 32
    &&& pk_on_curve(p.author)
    &&& msg.author == pubkey_of(secret)
    &&& msg.recipient == p.author
    &&& msg.kind == SIGNING_KIND
    &&& sig_ok(msg.author, preimage_spec(msg), msg.sig)
    &&& exists|e: EnvelopeView|
        #![auto]
        response_env_ok(secret, p, e) && sealed_to(secret, p.author, encode_spec(e), msg.ciphertext)
}

/// The response envelope an approved pending request deserves.  For
/// sign-event the signature bytes themselves are unpredictable, so the
/// envelope is pinned up to a 64-byte signature that verifies over the
/// proposed event.
pub open spec fn response_env_ok(secret: Seq<u8>, p: PendingView, e: EnvelopeView) -> bool {
    match method_kind_spec(p.method) {
        MethodKind::Connect => e == (EnvelopeView::Response {
            id: p.id,
            body: BodyView::Result(ack_payload()),
        }),
        MethodKind::Describe => e == (EnvelopeView::Response {
            id: p.id,
            body: BodyView::Result(manifest_payload()),
        }),
        MethodKind::GetPublicKey => e == (EnvelopeView::Response {
            id: p.id,
            body: BodyView::Result(hex_of_bytes(pubkey_of(secret))),
        }),
        MethodKind::Ping => e == (EnvelopeView::Response {
            id: p.id,
            body: BodyView::Result(pong_payload()),
        }),
        MethodKind::GetRelays => e == (EnvelopeView::Response {
            id: p.id,
            body: BodyView::Error(unsupported_payload()),
        }),
        MethodKind::SignEvent => if p.params.len() == 1 && p.params[0].len() > 0 {
            exists|s: Seq<u8>|
                #![auto]
                e == (EnvelopeView::Response {
                    id: p.id,
                    body: BodyView::Result(hex_of_bytes(s)),
                }) && s.len() == 64 && sig_ok(pubkey_of(secret), p.params[0], s)
        } else {
            e == (EnvelopeView::Response {
                id: p.id,
                body: BodyView::Error(invalid_event_payload()),
            })
        },
        MethodKind::Unknown => false,
    }
}

/// The id the agent uses for its own connect announcement.
pub open spec fn connect_request_id() -> Seq<u8> {
    seq![0x31u8]
}

/// The agent's connect announcement: its own public key, spelled in hex,
/// offered to the remote application.
pub open spec fn connect_env_spec(own_pk: Seq<u8>) -> EnvelopeView {
    EnvelopeView::Request {
        id: connect_request_id(),
        method: name_connect(),
        params: seq![hex_of_bytes(own_pk)],
    }
}

/// The agent: key custodian, remote counterparty, and the dispatcher state.
/// The state is either awaiting a request (`pending` empty) or awaiting the
/// operator's approval of exactly one decoded request.
pub struct Agent {
    custodian: KeyCustodian,
    remote: Vec<u8>,
    pending: Option<Pending>,
}

impl Agent {
    /// The agent's secret key (visible to specifications only).
    pub closed spec fn secret(self) -> Seq<u8> {
        self.custodian.secret()
    }

    /// The remote application's public key.
    pub closed spec fn remote_view(self) -> Seq<u8> {
        self.remote@
    }

    /// The request awaiting approval, if any.
    pub closed spec fn pending_view(self) -> Option<PendingView> {
        match self.pending {
            Option::Some(p) => Option::Some(p@),
            Option::None => Option::None,
        }
    }

    #[verifier::type_invariant]
    closed spec fn inv(self) -> bool {
        match self.pending {
            Option::Some(p) => p.id@.len() < 0x1_0000_0000 && !(method_kind_spec(p.method@)
                is Unknown),
            Option::None => true,
        }
    }

    /// Builds an agent in the awaiting-request state.
    pub fn new(custodian: KeyCustodian, remote: Vec<u8>) -> (r: Agent)
        ensures
            r.secret() == custodian.secret(),
            r.remote_view() == remote@,
            r.pending_view() is None,
    {
        Agent { custodian, remote, pending: None }
    }

    /// Builds an agent for an established session: the counterparty is the
    /// remote application the connect-URI named.
    pub fn from_session(custodian: KeyCustodian, session: &SessionDescriptor) -> (r: Agent)
        ensures
            r.secret() == custodian.secret(),
            r.remote_view() == session.remote_pk@,
            r.pending_view() is None,
    {
        let remote = copy_bytes(&session.remote_pk);
        Agent::new(custodian, remote)
    }

    /// The agent's own public key.
    pub fn public_key(&self) -> (r: Vec<u8>)
        ensures
            r@ == pubkey_of(self.secret()),
            r@.len() == 32,
    {
        self.custodian.public_key()
    }

    /// The connect announcement to publish once at startup, addressed to
    /// the remote application named by the session.  Fails exactly when the
    /// remote key is not a 32-byte curve point.
    pub fn connect_request(&self) -> (r: Option<RelayMessage>)
        ensures
            r is Some <==> (self.remote_view().len() == 32 && pk_on_curve(self.remote_view())),
            r matches Some(m) ==> ({
                &&& m.author@ == pubkey_of(self.secret())
                &&& m.recipient@ == self.remote_view()
                &&& m.kind == SIGNING_KIND
                &&& sig_ok(m.author@, preimage_spec(m@), m.sig@)
                &&& sealed_to(
                    self.secret(),
                    self.remote_view(),
                    encode_spec(connect_env_spec(pubkey_of(self.secret()))),
                    m.ciphertext@,
                )
            }),
    {
        let own_pk = self.custodian.public_key();
        let hexpk = hex_encode(&own_pk);
        let mut params: Vec<Vec<u8>> = Vec::new();
        params.push(hexpk);
        let id = vec![0x31u8];
        let env = Envelope::Request { id, method: connect_name(), params };
        proof {
            assert(env@ matches EnvelopeView::Request { id: i2, method: m2, params: p2 } && i2
                =~= connect_request_id() && m2 == name_connect() && p2 =~= seq![
                hex_of_bytes(pubkey_of(self.secret())),
            ]) by {
                assert(env@ matches EnvelopeView::Request { id: i2, method: m2, params: p2 }
                    ==> p2.len() == 1 && p2[0] =~= hex_of_bytes(pubkey_of(self.secret())));
            }
            assert(env@ == connect_env_spec(pubkey_of(self.secret())));
            assert(env_wf(env@));
        }
        encode_outbound(&self.custodian, &env, &self.remote)
    }

    /// Takes one inbound relay message.  If a request is already awaiting
    /// approval, nothing is read and the caller must redeliver later: the
    /// operator is never asked about two actions at once.  Otherwise the
    /// message is filtered, decoded and classified exactly as `step_spec`
    /// says, and the agent state changes only when a recognized request
    /// becomes pending.
    pub fn receive(&mut self, m: &RelayMessage) -> (r: Received)
        ensures
            r is Busy <==> old(self).pending_view() is Some,
            old(self).pending_view() is Some ==> *final(self) == *old(self),
            old(self).pending_view() is None ==> (match step_spec(old(self).secret(), m@) {
                StepSpec::Dropped => r is Dropped && *final(self) == *old(self),
                StepSpec::Rejected(e) => r == Received::Rejected(e) && *final(self) == *old(
                    self,
                ),
                StepSpec::Pend(p) => {
                    &&& r is NeedsApproval
                    &&& final(self).pending_view() == Some(p)
                    &&& final(self).secret() == old(self).secret()
                    &&& final(self).remote_view() == old(self).remote_view()
                },
            }),
    {
        if self.pending.is_some() {
            return Received::Busy;
        }
        let own_pk = self.custodian.public_key();
        if m.kind != SIGNING_KIND || !vec_eq(&m.recipient, &own_pk) {
            return Received::Dropped;
        }
        let env = match decode_inbound(&self.custodian, m) {
            Result::Ok(env) => env,
            Result::Err(e) => {
                return Received::Rejected(e);
            },
        };
        match env {
            Envelope::Response { .. } => Received::Dropped,
            Envelope::Request { id, method, params } => {
                match method_kind(&method) {
                    MethodKind::Unknown => Received::Dropped,
                    _ => {
                        proof {
                            use_type_invariant(&*self);
                        }
                        let author = copy_bytes(&m.author);
                        let p = Pending { id, method, params, author };
                        self.pending = Some(p);
                        Received::NeedsApproval
                    },
                }
            },
        }
    }

    /// A short description of the pending action for the operator: the
    /// method name, a space, and the request id.
    pub fn pending_description(&self) -> (r: Option<Vec<u8>>)
        ensures
            match r {
                Option::Some(d) => self.pending_view() matches Some(p) && d@ == p.method + seq![
                    0x20u8,
                ] + p.id,
                Option::None => self.pending_view() is None,
            },
    {
        match &self.pending {
            Option::None => Option::None,
            Option::Some(p) => {
                let mut d = copy_bytes(&p.method);
                d.push(0x20);
                append_bytes(&mut d, &p.id);
                Option::Some(d)
            },
        }
    }

    /// Resolves the pending request with the operator's decision.  A denial
    /// drops the request and sends nothing.  An approval produces exactly
    /// one response: correlated to the request's id, addressed to the
    /// requester, and carrying what the method deserves — unless the
    /// requester's key is no curve point, in which case nothing can be
    /// encrypted for it and the request is dropped.  Either way the agent
    /// returns to the awaiting-request state.
    pub fn decide(&mut self, approved: bool) -> (r: Decision)
        ensures
            final(self).secret() == old(self).secret(),
            final(self).remote_view() == old(self).remote_view(),
            final(self).pending_view() is None,
            r is Idle <==> old(self).pending_view() is None,
            old(self).pending_view() matches Some(p) ==> ({
                &&& !approved ==> r is Denied
                &&& approved ==> !(r is Idle) && !(r is Denied)
                &&& approved ==> (r is Respond <==> (p.author.len() == 32 && pk_on_curve(
                    p.author,
                )))
                &&& approved ==> (r matches Decision::Respond(msg) ==> respond_ok(
                    old(self).secret(),
                    p,
                    msg@,
                ))
            }),
    {
        proof {
            use_type_invariant(&*self);
        }
        let mut taken: Option<Pending> = Option::None;
        std::mem::swap(&mut taken, &mut self.pending);
        let p = match taken {
            Option::None => {
                return Decision::Idle;
            },
            Option::Some(p) => p,
        };
        if !approved {
            return Decision::Denied;
        }
        let body: ResponseBody = match method_kind(&p.method) {
            MethodKind::Connect => {
                let pay = vec![0x61u8, 0x63, 0x6b];
                proof {
                    assert(pay@ =~= ack_payload());
                }
                ResponseBody::Result(pay)
            },
            MethodKind::Describe => ResponseBody::Result(manifest_vec()),
            MethodKind::GetPublicKey => {
                let pk = self.custodian.public_key();
                ResponseBody::Result(hex_encode(&pk))
            },
            MethodKind::Ping => {
                let pay = vec![0x70u8, 0x6f, 0x6e, 0x67];
                proof {
                    assert(pay@ =~= pong_payload());
                }
                ResponseBody::Result(pay)
            },
            MethodKind::GetRelays => {
                let pay = vec![0x75u8, 0x6e, 0x73, 0x75, 0x70, 0x70, 0x6f, 0x72, 0x74, 0x65, 0x64, 0x2d, 0x6d, 0x65, 0x74, 0x68, 0x6f, 0x64];
                proof {
                    assert(pay@ =~= unsupported_payload());
                }
                ResponseBody::Error(pay)
            },
            MethodKind::SignEvent => {
                proof {
                    assert(p@.params.len() == p.params@.len());
                    if p.params@.len() == 1 {
                        assert(p@.params[0] =~= p.params@[0]@);
                    }
                }
                if p.params.len() == 1 && p.params[0].len() > 0 {
                    let sig = self.custodian.sign(&p.params[0]);
                    ResponseBody::Result(hex_encode(&sig))
                } else {
                    let pay = vec![0x69u8, 0x6e, 0x76, 0x61, 0x6c, 0x69, 0x64, 0x2d, 0x65, 0x76, 0x65, 0x6e, 0x74];
                    proof {
                        assert(pay@ =~= invalid_event_payload());
                    }
                    ResponseBody::Error(pay)
                }
            },
            MethodKind::Unknown => {
                proof {
                    assert(false);
                }
                vstd::pervasive::unreached()
            },
        };
        let ghost pv = p@;
        let env = Envelope::Response { id: p.id, body };
        proof {
            assert(response_env_ok(old(self).secret(), pv, env@));
            assert(env_wf(env@));
        }
        match encode_outbound(&self.custodian, &env, &p.author) {
            Option::Some(msg) => Decision::Respond(msg),
            Option::None => Decision::Failed,
        }
    }
}

} // verus!
