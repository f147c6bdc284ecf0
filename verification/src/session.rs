//! The session descriptor and the connect-URI that bootstraps it.
//!
//! A connect-URI names the remote application's public key and at least
//! one relay, with optional metadata:
//! `nostrconnect://<64 lowercase hex digits>?relay=<url>&...`.  The query
//! holds `key=value` pairs separated by `&`; every `relay` value must name
//! a websocket url, the first one is the session's relay and the rest are
//! extras; the first `name` and `secret` values, if any, are kept; other
//! keys are ignored.  A malformed string is rejected before any network
//! activity, exactly as `uri_spec` says.

use vstd::prelude::*;
use crate::dispatcher::vec_eq;
use crate::wire::hex_val;
use crate::wire::is_hex_byte;

verus! {

/// The failure of parsing a connect-URI: fatal at startup.
#[derive(Clone, Copy, Debug, PartialEq, Eq, Structural)]
pub struct ParseError;

/// The immutable description of one session: where to reach the relay and
/// whom to talk to, fixed once at startup.
#[derive(Clone, Debug, PartialEq, Eq)]
pub struct SessionDescriptor {
    pub relay_url: Vec<u8>,
    pub remote_pk: Vec<u8>,
    pub extra_relays: Vec<Vec<u8>>,
    pub name: Option<Vec<u8>>,
    pub secret: Option<Vec<u8>>,
}

pub struct SessionView {
    pub relay_url: Seq<u8>,
    pub remote_pk: Seq<u8>,
    pub extra_relays: Seq<Seq<u8>>,
    pub name: Option<Seq<u8>>,
    pub secret: Option<Seq<u8>>,
}

impl View for SessionDescriptor {
    type V = SessionView;

    open spec fn view(&self) -> SessionView {
        SessionView {
            relay_url: self.relay_url@,
            remote_pk: self.remote_pk@,
            extra_relays: self.extra_relays.deep_view(),
            name: match &self.name {
                Option::Some(n) => Option::Some(n@),
                Option::None => Option::None,
            },
            secret: match &self.secret {
                Option::Some(n) => Option::Some(n@),
                Option::None => Option::None,
            },
        }
    }
}

/// The scheme prefix "nostrconnect://".
pub open spec fn scheme_spec() -> Seq<u8> {
    seq![0x6eu8, 0x6f, 0x73, 0x74, 0x72, 0x63, 0x6f, 0x6e, 0x6e, 0x65, 0x63, 0x74, 0x3a, 0x2f, 0x2f]
}

/// The query key "relay".
pub open spec fn key_relay() -> Seq<u8> {
    seq![0x72u8, 0x65, 0x6c, 0x61, 0x79]
}

/// The query key "name".
pub open spec fn key_name() -> Seq<u8> {
    seq![0x6eu8, 0x61, 0x6d, 0x65]
}

/// The query key "secret".
pub open spec fn key_secret() -> Seq<u8> {
    seq![0x73u8, 0x65, 0x63, 0x72, 0x65, 0x74]
}

/// Whether a value names a websocket url: it starts with "ws://" or
/// "wss://".
pub open spec fn is_ws_url(r: Seq<u8>) -> bool {
    (r.len() >= 5 && r.subrange(0, 5) == seq![0x77u8, 0x73, 0x3a, 0x2f, 0x2f]) || (r.len() >= 6
        && r.subrange(0, 6) == seq![0x77u8, 0x73, 0x73, 0x3a, 0x2f, 0x2f])
}

/// The 32 bytes spelled by the 64 hex digits at positions 15..79.
pub open spec fn pk_bytes(s: Seq<u8>) -> Seq<u8> {
    Seq::new(32, |i: int| (hex_val(s[15 + 2 * i]) * 16 + hex_val(s[15 + 2 * i + 1])) as u8)
}

/// The first position at or after pos holding b, or the length.
pub open spec fn find_in(q: Seq<u8>, pos: nat, b: u8) -> nat
    decreases q.len() - pos,
    when pos <= q.len()
{
    if pos == q.len() {
        pos
    } else if q[pos as int] == b {
        pos
    } else {
        find_in(q, pos + 1, b)
    }
}

/// What the query pairs from pos onward yield.
pub struct ParamsView {
    pub relays: Seq<Seq<u8>>,
    pub name: Option<Seq<u8>>,
    pub secret: Option<Seq<u8>>,
}

/// Reads the `key=value` pairs from pos to the end of the query.  Each
/// segment runs to the next `&`; a segment without `=` is malformed; a
/// `relay` value is prepended to the relays of the rest, the first `name`
/// and `secret` win, and unknown keys are passed over.
pub open spec fn params_from(q: Seq<u8>, pos: nat) -> Option<ParamsView>
    decreases q.len() - pos,
    when pos <= q.len()
{
    // find_in never leaves [pos, len]; the clamp makes the recursion
    // measure plain without appeal to that fact
    let amp0 = find_in(q, pos, 0x26);
    let amp = if amp0 < pos {
        pos
    } else if amp0 > q.len() {
        q.len()
    } else {
        amp0
    };
    let eq = find_in(q, pos, 0x3d);
    if !(pos <= eq && eq < amp) {
        Option::None
    } else {
        let key = q.subrange(pos as int, eq as int);
        let value = q.subrange((eq + 1) as int, amp as int);
        let restp = if amp == q.len() {
            Option::Some(
                ParamsView { relays: Seq::empty(), name: Option::None, secret: Option::None },
            )
        } else {
            params_from(q, amp + 1)
        };
        match restp {
            Option::None => Option::None,
            Option::Some(rest) => if key == key_relay() {
                Option::Some(
                    ParamsView {
                        relays: seq![value] + rest.relays,
                        name: rest.name,
                        secret: rest.secret,
                    },
                )
            } else if key == key_name() {
                Option::Some(
                    ParamsView {
                        relays: rest.relays,
                        name: Option::Some(value),
                        secret: rest.secret,
                    },
                )
            } else if key == key_secret() {
                Option::Some(
                    ParamsView { relays: rest.relays, name: rest.name, secret: Option::Some(value) },
                )
            } else {
                Option::Some(rest)
            },
        }
    }
}

/// What a connect-URI describes, if it is well formed: the scheme, then
/// the remote public key in hex, then `?` and the query pairs, of which at
/// least one relay, every relay a websocket url.
pub open spec fn uri_spec(s: Seq<u8>) -> Option<SessionView> {
    if s.len() < 80 {
        Option::None
    } else if s.subrange(0, 15) != scheme_spec() {
        Option::None
    } else if !(forall|i: int| 15 <= i < 79 ==> is_hex_byte(s[i])) {
        Option::None
    } else if s[79] != 0x3f {
        Option::None
    } else {
        match params_from(s, 80) {
            Option::None => Option::None,
            Option::Some(ps) => if ps.relays.len() == 0 {
                Option::None
            } else if !(forall|i: int| 0 <= i < ps.relays.len() ==> is_ws_url(
                #[trigger] ps.relays[i],
            )) {
                Option::None
            } else {
                Option::Some(
                    SessionView {
                        relay_url: ps.relays[0],
                        remote_pk: pk_bytes(s),
                        extra_relays: ps.relays.drop_first(),
                        name: ps.name,
                        secret: ps.secret,
                    },
                )
            },
        }
    }
}

/// Copies q[lo..hi].
fn subrange_vec(q: &Vec<u8>, lo: usize, hi: usize) -> (r: Vec<u8>)
    requires
        lo <= hi <= q@.len(),
    ensures
        r@ == q@.subrange(lo as int, hi as int),
{
    let mut out: Vec<u8> = Vec::new();
    let mut i: usize = lo;
    while i < hi
        invariant
            lo <= i <= hi <= q@.len(),
            out@ == q@.subrange(lo as int, i as int),
        decreases hi - i,
    {
        out.push(q[i]);
        proof {
            assert(q@.subrange(lo as int, i + 1) =~= q@.subrange(lo as int, i as int).push(
                q@[i as int],
            ));
        }
        i = i + 1;
    }
    out
}

/// Finds the first position at or after pos holding b.
fn find_from(q: &Vec<u8>, pos: usize, b: u8) -> (r: usize)
    requires
        pos <= q@.len(),
    ensures
        pos <= r <= q@.len(),
        r as nat == find_in(q@, pos as nat, b),
{
    let mut j: usize = pos;
    while j < q.len()
        invariant
            pos <= j <= q@.len(),
            find_in(q@, pos as nat, b) == find_in(q@, j as nat, b),
        decreases q@.len() - j,
    {
        if q[j] == b {
            return j;
        }
        j = j + 1;
    }
    j
}

fn hex_nibble(b: u8) -> (r: Option<u8>)
    ensures
        r is Some <==> is_hex_byte(b),
        r matches Some(d) ==> d as nat == hex_val(b),
{
    if 0x30 <= b && b <= 0x39 {
        Some(b - 0x30)
    } else if 0x61 <= b && b <= 0x66 {
        Some(b - 0x57)
    } else {
        None
    }
}

/// Whether a value names a websocket url.
fn is_ws_url_x(v: &Vec<u8>) -> (r: bool)
    ensures
        r == is_ws_url(v@),
{
    let wsp = vec![0x77u8, 0x73, 0x3a, 0x2f, 0x2f];
    let wssp = vec![0x77u8, 0x73, 0x73, 0x3a, 0x2f, 0x2f];
    proof {
        assert(wsp@ =~= seq![0x77u8, 0x73, 0x3a, 0x2f, 0x2f]);
        assert(wssp@ =~= seq![0x77u8, 0x73, 0x73, 0x3a, 0x2f, 0x2f]);
    }
    if v.len() >= 5 {
        let head = subrange_vec(v, 0, 5);
        if vec_eq(&head, &wsp) {
            return true;
        }
    }
    if v.len() >= 6 {
        let head = subrange_vec(v, 0, 6);
        if vec_eq(&head, &wssp) {
            return true;
        }
    }
    false
}

struct Params {
    relays: Vec<Vec<u8>>,
    name: Option<Vec<u8>>,
    secret: Option<Vec<u8>>,
}

impl Params {
    spec fn pv(&self) -> ParamsView {
        ParamsView {
            relays: self.relays.deep_view(),
            name: match &self.name {
                Option::Some(n) => Option::Some(n@),
                Option::None => Option::None,
            },
            secret: match &self.secret {
                Option::Some(n) => Option::Some(n@),
                Option::None => Option::None,
            },
        }
    }
}

fn parse_params(q: &Vec<u8>, pos: usize) -> (r: Option<Params>)
    requires
        pos <= q@.len(),
    ensures
        match r {
            Option::Some(ps) => params_from(q@, pos as nat) == Some(ps.pv()),
            Option::None => params_from(q@, pos as nat) is None,
        },
    decreases q@.len() - pos,
{
    let amp = find_from(q, pos, 0x26);
    let eq = find_from(q, pos, 0x3d);
    if !(eq < amp) {
        return None;
    }
    let key = subrange_vec(q, pos, eq);
    let value = subrange_vec(q, eq + 1, amp);
    let rest: Params = if amp == q.len() {
        Params { relays: Vec::new(), name: None, secret: None }
    } else {
        match parse_params(q, amp + 1) {
            Option::Some(x) => x,
            Option::None => {
                return None;
            },
        }
    };
    proof {
        if amp == q@.len() {
            assert(rest.pv().relays =~= Seq::<Seq<u8>>::empty());
        }
    }
    let krelay = vec![0x72u8, 0x65, 0x6c, 0x61, 0x79];
    let kname = vec![0x6eu8, 0x61, 0x6d, 0x65];
    let ksecret = vec![0x73u8, 0x65, 0x63, 0x72, 0x65, 0x74];
    proof {
        assert(krelay@ =~= key_relay());
        assert(kname@ =~= key_name());
        assert(ksecret@ =~= key_secret());
    }
    if vec_eq(&key, &krelay) {
        let mut relays = rest.relays;
        relays.insert(0, value);
        let out = Params { relays, name: rest.name, secret: rest.secret };
        proof {
            assert(out.pv().relays =~~= seq![q@.subrange((eq as int) + 1, amp as int)] + rest.pv().relays);
        }
        Some(out)
    } else if vec_eq(&key, &kname) {
        Some(Params { relays: rest.relays, name: Some(value), secret: rest.secret })
    } else if vec_eq(&key, &ksecret) {
        Some(Params { relays: rest.relays, name: rest.name, secret: Some(value) })
    } else {
        Some(rest)
    }
}

/// Parses a connect-URI.  Returns the session it describes, or a parse
/// error exactly when the string is not of the form `uri_spec` accepts.
#[verifier::loop_isolation(false)]
pub fn parse_connect_uri(s: &Vec<u8>) -> (r: Result<SessionDescriptor, ParseError>)
    ensures
        match r {
            Result::Ok(d) => uri_spec(s@) == Some(d@),
            Result::Err(_) => uri_spec(s@) is None,
        },
{
    if s.len() < 80 {
        return Err(ParseError);
    }
    let sch = subrange_vec(s, 0, 15);
    let schemev = vec![0x6eu8, 0x6f, 0x73, 0x74, 0x72, 0x63, 0x6f, 0x6e, 0x6e, 0x65, 0x63, 0x74, 0x3a, 0x2f, 0x2f];
    proof {
        assert(schemev@ =~= scheme_spec());
    }
    if !vec_eq(&sch, &schemev) {
        return Err(ParseError);
    }
    let mut pk: Vec<u8> = Vec::new();
    let mut i: usize = 0;
    while i < 32
        invariant
            i <= 32,
            pk@.len() == i,
            forall|k: int| 15 <= k < 15 + 2 * i ==> is_hex_byte(s@[k]),
            forall|k: int| 0 <= k < i ==> pk@[k] == pk_bytes(s@)[k],
        decreases 32 - i,
    {
        let c0 = s[15 + 2 * i];
        let c1 = s[16 + 2 * i];
        let d0 = match hex_nibble(c0) {
            Option::Some(d) => d,
            Option::None => {
                return Err(ParseError);
            },
        };
        let d1 = match hex_nibble(c1) {
            Option::Some(d) => d,
            Option::None => {
                return Err(ParseError);
            },
        };
        pk.push(d0 * 16 + d1);
        proof {
            assert(pk_bytes(s@)[i as int] == (hex_val(s@[15 + 2 * (i as int)]) * 16 + hex_val(
                s@[15 + 2 * (i as int) + 1],
            )) as u8);
        }
        i = i + 1;
    }
    proof {
        assert(pk@ =~= pk_bytes(s@));
        assert(forall|k: int| 15 <= k < 79 ==> is_hex_byte(s@[k]));
    }
    if s[79] != 0x3f {
        return Err(ParseError);
    }
    let ps = match parse_params(s, 80) {
        Option::Some(ps) => ps,
        Option::None => {
            return Err(ParseError);
        },
    };
    if ps.relays.len() == 0 {
        return Err(ParseError);
    }
    let mut j: usize = 0;
    while j < ps.relays.len()
        invariant
            j <= ps.relays@.len(),
            forall|k: int| 0 <= k < j ==> is_ws_url(#[trigger] ps.relays.deep_view()[k]),
        decreases ps.relays@.len() - j,
    {
        if !is_ws_url_x(&ps.relays[j]) {
            proof {
                assert(ps.relays.deep_view()[j as int] =~= ps.relays@[j as int]@);
            }
            return Err(ParseError);
        }
        proof {
            assert(ps.relays.deep_view()[j as int] =~= ps.relays@[j as int]@);
        }
        j = j + 1;
    }
    let mut relays = ps.relays;
    let relay_url = relays.remove(0);
    let d = SessionDescriptor {
        relay_url,
        remote_pk: pk,
        extra_relays: relays,
        name: ps.name,
        secret: ps.secret,
    };
    proof {
        let psv = params_from(s@, 80).unwrap();
        assert(d@.relay_url == psv.relays[0]);
        assert(d@.extra_relays =~~= psv.relays.drop_first());
        assert(uri_spec(s@) matches Some(v) && v.relay_url == d@.relay_url && v.remote_pk == d@
            .remote_pk && v.extra_relays == d@.extra_relays && v.name == d@.name && v.secret == d@
            .secret);
    }
    Ok(d)
}

} // verus!
