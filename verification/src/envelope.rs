//! The protocol-level request/response unit and its canonical text form.
//!
//! An envelope is either a request (an id, a method name, and a list of
//! opaque parameters) or a response (an id and exactly one of a result or
//! an error payload; the type makes a response with both or neither
//! unrepresentable).  The canonical text form is a tag byte followed by
//! length-prefixed fields; `lemma_envelope_round_trip` proves that decoding
//! undoes encoding, field for field.

use vstd::prelude::*;
use crate::wire::field_enc;
use crate::wire::hexn;
use crate::wire::lemma_parse_count_enc;
use crate::wire::lemma_parse_field_enc;
use crate::wire::lemma_pow16_8;
use crate::wire::parse_count;
use crate::wire::parse_field;
use crate::wire::pow16;
use crate::wire::push_field;
use crate::wire::push_hexn;
use crate::wire::read_count;
use crate::wire::read_field;

verus! {

/// The payload of a response: a success result or a failure description,
/// never both and never neither.
#[derive(Clone, Debug, PartialEq, Eq)]
pub enum ResponseBody {
    Result(Vec<u8>),
    Error(Vec<u8>),
}

/// The protocol request/response unit, independent of transport encoding.
#[derive(Clone, Debug, PartialEq, Eq)]
pub enum Envelope {
    Request { id: Vec<u8>, method: Vec<u8>, params: Vec<Vec<u8>> },
    Response { id: Vec<u8>, body: ResponseBody },
}

pub enum BodyView {
    Result(Seq<u8>),
    Error(Seq<u8>),
}

pub enum EnvelopeView {
    Request { id: Seq<u8>, method: Seq<u8>, params: Seq<Seq<u8>> },
    Response { id: Seq<u8>, body: BodyView },
}

impl View for ResponseBody {
    type V = BodyView;

    open spec fn view(&self) -> BodyView {
        match self {
            ResponseBody::Result(p) => BodyView::Result(p@),
            ResponseBody::Error(p) => BodyView::Error(p@),
        }
    }
}

impl View for Envelope {
    type V = EnvelopeView;

    open spec fn view(&self) -> EnvelopeView {
        match self {
            Envelope::Request { id, method, params } => (EnvelopeView::Request {
                id: id@,
                method: method@,
                params: params.deep_view(),
            }),
            Envelope::Response { id, body } => (EnvelopeView::Response { id: id@, body: body@ }),
        }
    }
}

/// A field can be framed: its byte length fits the eight-digit prefix.
pub open spec fn field_wf(s: Seq<u8>) -> bool {
    s.len() < 0x1_0000_0000
}

pub open spec fn body_wf(b: BodyView) -> bool {
    match b {
        BodyView::Result(p) => field_wf(p),
        BodyView::Error(p) => field_wf(p),
    }
}

/// Well-formedness of an envelope: every field is framable ASCII and the
/// parameter count fits the frame.
pub open spec fn env_wf(e: EnvelopeView) -> bool {
    match e {
        EnvelopeView::Request { id, method, params } => {
            &&& field_wf(id)
            &&& field_wf(method)
            &&& params.len() < 0x1_0000_0000
            &&& (forall|i: int| 0 <= i < params.len() ==> field_wf(#[trigger] params[i]))
        },
        EnvelopeView::Response { id, body } => field_wf(id) && body_wf(body),
    }
}

pub open spec fn cat_fields(ps: Seq<Seq<u8>>) -> Seq<u8>
    decreases ps.len(),
{
    if ps.len() == 0 {
        Seq::empty()
    } else {
        field_enc(ps[0]) + cat_fields(ps.drop_first())
    }
}

/// The canonical text of an envelope.
pub open spec fn encode_spec(e: EnvelopeView) -> Seq<u8> {
    match e {
        EnvelopeView::Request { id, method, params } => seq![0x51u8] + field_enc(id) + field_enc(
            method,
        ) + hexn(params.len(), 8) + cat_fields(params),
        EnvelopeView::Response { id, body } => match body {
            BodyView::Result(p) => seq![0x52u8] + field_enc(id) + seq![0x53u8] + field_enc(p),
            BodyView::Error(p) => seq![0x52u8] + field_enc(id) + seq![0x45u8] + field_enc(p),
        },
    }
}

pub open spec fn parse_params(t: Seq<u8>, k: nat) -> Option<(Seq<Seq<u8>>, Seq<u8>)>
    decreases k,
{
    if k == 0 {
        Some((Seq::empty(), t))
    } else {
        match parse_field(t) {
            Option::None => Option::None,
            Option::Some((f, rest)) => match parse_params(rest, (k - 1) as nat) {
                Option::None => Option::None,
                Option::Some((fs, rest2)) => Option::Some((seq![f] + fs, rest2)),
            },
        }
    }
}

/// The canonical parse of a text: the unique envelope the text spells, if
/// the text is exactly one well-framed envelope.
pub open spec fn parse_spec(t: Seq<u8>) -> Option<EnvelopeView> {
    if t.len() == 0 {
        Option::None
    } else if t[0] == 0x51 {
        match parse_field(t.skip(1)) {
            Option::None => Option::None,
            Option::Some((id, r1)) => match parse_field(r1) {
                Option::None => Option::None,
                Option::Some((method, r2)) => match parse_count(r2) {
                    Option::None => Option::None,
                    Option::Some((cnt, r3)) => match parse_params(r3, cnt) {
                        Option::None => Option::None,
                        Option::Some((ps, r4)) => if r4.len() == 0 {
                            Option::Some(EnvelopeView::Request { id, method, params: ps })
                        } else {
                            Option::None
                        },
                    },
                },
            },
        }
    } else if t[0] == 0x52 {
        match parse_field(t.skip(1)) {
            Option::None => Option::None,
            Option::Some((id, r1)) => if r1.len() == 0 {
                Option::None
            } else if r1[0] == 0x53 || r1[0] == 0x45 {
                match parse_field(r1.skip(1)) {
                    Option::None => Option::None,
                    Option::Some((p, r2)) => if r2.len() == 0 {
                        if r1[0] == 0x53 {
                            Option::Some(
                                EnvelopeView::Response { id, body: BodyView::Result(p) },
                            )
                        } else {
                            Option::Some(EnvelopeView::Response { id, body: BodyView::Error(p) })
                        }
                    } else {
                        Option::None
                    },
                }
            } else {
                Option::None
            },
        }
    } else {
        Option::None
    }
}

/// What the codec accepts: a canonical text whose envelope is well formed.
pub open spec fn decode_text(t: Seq<u8>) -> Option<EnvelopeView> {
    match parse_spec(t) {
        Option::Some(e) => if env_wf(e) {
            Option::Some(e)
        } else {
            Option::None
        },
        Option::None => Option::None,
    }
}

pub proof fn lemma_cat_fields_snoc(ps: Seq<Seq<u8>>, p: Seq<u8>)
    ensures
        cat_fields(ps.push(p)) == cat_fields(ps) + field_enc(p),
    decreases ps.len(),
{
    if ps.len() == 0 {
        assert(ps.push(p)[0] == p);
        assert(ps.push(p).drop_first() =~= ps);
        assert(cat_fields(ps.push(p)) =~= cat_fields(ps) + field_enc(p));
    } else {
        assert(ps.push(p).drop_first() =~= ps.drop_first().push(p));
        lemma_cat_fields_snoc(ps.drop_first(), p);
        assert(ps.push(p)[0] == ps[0]);
        assert(cat_fields(ps.push(p)) == field_enc(ps[0]) + (cat_fields(ps.drop_first())
            + field_enc(p)));
        assert(field_enc(ps[0]) + (cat_fields(ps.drop_first()) + field_enc(p)) =~= (field_enc(
            ps[0],
        ) + cat_fields(ps.drop_first())) + field_enc(p));
    }
}

/// Parsing undoes the framing of a whole parameter list.
pub proof fn lemma_parse_params_enc(ps: Seq<Seq<u8>>, rest: Seq<u8>)
    requires
        forall|i: int| 0 <= i < ps.len() ==> (#[trigger] ps[i]).len() < pow16(8),
    ensures
        parse_params(cat_fields(ps) + rest, ps.len()) == Some((ps, rest)),
    decreases ps.len(),
{
    if ps.len() == 0 {
        assert(cat_fields(ps) + rest =~= rest);
        assert(Seq::<Seq<u8>>::empty() =~= ps);
    } else {
        let tail = ps.drop_first();
        assert(cat_fields(ps) + rest =~= field_enc(ps[0]) + (cat_fields(tail) + rest));
        lemma_parse_field_enc(ps[0], cat_fields(tail) + rest);
        assert(forall|i: int| 0 <= i < tail.len() ==> (#[trigger] tail[i]).len() < pow16(8));
        lemma_parse_params_enc(tail, rest);
        assert(seq![ps[0]] + tail =~= ps);
    }
}

/// Splitting a parameter parse at any index composes.
pub proof fn lemma_parse_params_split(t: Seq<u8>, i: nat, j: nat)
    ensures
        parse_params(t, i + j) == (match parse_params(t, i) {
            Option::None => Option::<(Seq<Seq<u8>>, Seq<u8>)>::None,
            Option::Some((ps, r)) => match parse_params(r, j) {
                Option::None => Option::None,
                Option::Some((qs, r2)) => Option::Some((ps + qs, r2)),
            },
        }),
    decreases i,
{
    if i == 0 {
        match parse_params(t, j) {
            Option::None => {
            },
            Option::Some((qs, r2)) => {
                assert(Seq::<Seq<u8>>::empty() + qs =~= qs);
            },
        }
    } else {
        match parse_field(t) {
            Option::None => {
                assert(parse_params(t, i + j) is None);
            },
            Option::Some((f, rest)) => {
                lemma_parse_params_split(rest, (i - 1) as nat, j);
                match parse_params(rest, (i - 1) as nat) {
                    Option::None => {
                    },
                    Option::Some((ps1, r)) => {
                        match parse_params(r, j) {
                            Option::None => {
                            },
                            Option::Some((qs, r2)) => {
                                assert(seq![f] + (ps1 + qs) =~= (seq![f] + ps1) + qs);
                            },
                        }
                    },
                }
            },
        }
    }
}

/// Decoding undoes encoding: the canonical text of any well-formed
/// envelope decodes back to that envelope, field for field.
pub proof fn lemma_envelope_round_trip(e: EnvelopeView)
    requires
        env_wf(e),
    ensures
        decode_text(encode_spec(e)) == Some(e),
{
    lemma_pow16_8();
    match e {
        EnvelopeView::Request { id, method, params } => {
            let t = encode_spec(e);
            let r2 = hexn(params.len(), 8) + cat_fields(params);
            assert(t[0] == 0x51);
            assert(t.skip(1) =~= field_enc(id) + (field_enc(method) + r2));
            lemma_parse_field_enc(id, field_enc(method) + r2);
            lemma_parse_field_enc(method, r2);
            lemma_parse_count_enc(params.len(), cat_fields(params));
            assert(cat_fields(params) + Seq::<u8>::empty() =~= cat_fields(params));
            lemma_parse_params_enc(params, Seq::<u8>::empty());
            assert(parse_spec(t) == Some(e));
        },
        EnvelopeView::Response { id, body } => {
            let t = encode_spec(e);
            match body {
                BodyView::Result(p) => {
                    assert(t[0] == 0x52);
                    assert(t.skip(1) =~= field_enc(id) + (seq![0x53u8] + field_enc(p)));
                    lemma_parse_field_enc(id, seq![0x53u8] + field_enc(p));
                    let r1 = seq![0x53u8] + field_enc(p);
                    assert(r1[0] == 0x53);
                    assert(r1.skip(1) =~= field_enc(p) + Seq::<u8>::empty());
                    lemma_parse_field_enc(p, Seq::<u8>::empty());
                    assert(parse_spec(t) == Some(e));
                },
                BodyView::Error(p) => {
                    assert(t[0] == 0x52);
                    assert(t.skip(1) =~= field_enc(id) + (seq![0x45u8] + field_enc(p)));
                    lemma_parse_field_enc(id, seq![0x45u8] + field_enc(p));
                    let r1 = seq![0x45u8] + field_enc(p);
                    assert(r1[0] == 0x45);
                    assert(r1.skip(1) =~= field_enc(p) + Seq::<u8>::empty());
                    lemma_parse_field_enc(p, Seq::<u8>::empty());
                    assert(parse_spec(t) == Some(e));
                },
            }
        },
    }
}

/// Whether a field is framable, checked at run time.
pub fn check_field_wf(s: &Vec<u8>) -> (r: bool)
    ensures
        r == field_wf(s@),
{
    (s.len() as u64) < 0x1_0000_0000u64
}

/// Whether an envelope is well formed, checked at run time.
#[verifier::loop_isolation(false)]
pub fn check_env_wf(e: &Envelope) -> (r: bool)
    ensures
        r == env_wf(e@),
{
    match e {
        Envelope::Request { id, method, params } => {
            if !check_field_wf(id) {
                return false;
            }
            if !check_field_wf(method) {
                return false;
            }
            if (params.len() as u64) >= 0x1_0000_0000u64 {
                return false;
            }
            let mut i: usize = 0;
            while i < params.len()
                invariant
                    i <= params@.len(),
                    forall|k: int| 0 <= k < i ==> field_wf(#[trigger] params.deep_view()[k]),
                decreases params@.len() - i,
            {
                if !check_field_wf(&params[i]) {
                    proof {
                        assert(params.deep_view()[i as int] =~= params@[i as int]@);
                    }
                    return false;
                }
                proof {
                    assert(params.deep_view()[i as int] =~= params@[i as int]@);
                }
                i = i + 1;
            }
            true
        },
        Envelope::Response { id, body } => {
            if !check_field_wf(id) {
                return false;
            }
            match body {
                ResponseBody::Result(p) => check_field_wf(p),
                ResponseBody::Error(p) => check_field_wf(p),
            }
        },
    }
}

/// Encodes an envelope into its canonical text.
pub fn encode_envelope(e: &Envelope) -> (r: Vec<u8>)
    requires
        env_wf(e@),
    ensures
        r@ == encode_spec(e@),
{
    let mut v: Vec<u8> = Vec::new();
    match e {
        Envelope::Request { id, method, params } => {
            v.push(0x51);
            proof {
                assert(v@ =~= seq![0x51u8]);
            }
            push_field(&mut v, id);
            push_field(&mut v, method);
            push_hexn(&mut v, params.len() as u64, 8);
            let ghost head = v@;
            let mut i: usize = 0;
            while i < params.len()
                invariant
                    i <= params@.len(),
                    v@ == head + cat_fields(params.deep_view().take(i as int)),
                decreases params@.len() - i,
            {
                push_field(&mut v, &params[i]);
                proof {
                    let pv = params.deep_view();
                    assert(pv.take(i + 1) =~= pv.take(i as int).push(pv[i as int]));
                    lemma_cat_fields_snoc(pv.take(i as int), pv[i as int]);
                    assert(pv[i as int] =~= params@[i as int]@);
                    assert(v@ =~= head + cat_fields(pv.take(i + 1)));
                }
                i = i + 1;
            }
            proof {
                let pv = params.deep_view();
                assert(pv.take(pv.len() as int) =~= pv);
                assert((params.len() as u64) as nat == pv.len());
                assert(v@ =~= encode_spec(e@));
            }
        },
        Envelope::Response { id, body } => {
            v.push(0x52);
            proof {
                assert(v@ =~= seq![0x52u8]);
            }
            push_field(&mut v, id);
            match body {
                ResponseBody::Result(p) => {
                    v.push(0x53);
                    push_field(&mut v, p);
                    proof {
                        assert(v@ =~= encode_spec(e@));
                    }
                },
                ResponseBody::Error(p) => {
                    v.push(0x45);
                    push_field(&mut v, p);
                    proof {
                        assert(v@ =~= encode_spec(e@));
                    }
                },
            }
        },
    }
    v
}

/// Parses a canonical text back into an envelope, accepting exactly the
/// texts that `decode_text` accepts.
#[verifier::loop_isolation(false)]
pub fn parse_envelope(t: &Vec<u8>) -> (r: Option<Envelope>)
    ensures
        match r {
            Option::Some(e) => decode_text(t@) == Some(e@) && env_wf(e@),
            Option::None => decode_text(t@) is None,
        },
{
    if t.len() == 0 {
        return None;
    }
    let tag = t[0];
    if tag == 0x51 {
        let (id, p1) = match read_field(t, 1) {
            Option::Some(x) => x,
            Option::None => {
                return None;
            },
        };
        let (method, p2) = match read_field(t, p1) {
            Option::Some(x) => x,
            Option::None => {
                return None;
            },
        };
        let (cnt, p3) = match read_count(t, p2) {
            Option::Some(x) => x,
            Option::None => {
                return None;
            },
        };
        let mut params: Vec<Vec<u8>> = Vec::new();
        let mut pos: usize = p3;
        let mut i: u64 = 0;
        let ghost tp = t@.skip(p3 as int);
        while i < cnt
            invariant
                i <= cnt,
                pos <= t@.len(),
                tp == t@.skip(p3 as int),
                params.deep_view().len() == i as nat,
                parse_params(tp, i as nat) == Some(
                    (params.deep_view(), t@.skip(pos as int)),
                ),
            decreases cnt - i,
        {
            let (f, p4) = match read_field(t, pos) {
                Option::Some(x) => x,
                Option::None => {
                    proof {
                        assert(parse_params(t@.skip(pos as int), (cnt - i) as nat) is None);
                        lemma_parse_params_split(tp, i as nat, (cnt - i) as nat);
                        assert(parse_params(tp, cnt as nat) is None);
                    }
                    return None;
                },
            };
            proof {
                let fpart = t@.skip(pos as int);
                let after = t@.skip(p4 as int);
                assert(parse_params(fpart, 1) == Some((seq![f@], after))) by {
                    assert(parse_field(fpart) == Some((f@, after)));
                    assert(parse_params(after, 0) == Some((Seq::<Seq<u8>>::empty(), after)));
                    assert(seq![f@] + Seq::<Seq<u8>>::empty() =~= seq![f@]);
                }
                lemma_parse_params_split(tp, i as nat, 1);
            }
            let ghost pv_old = params.deep_view();
            params.push(f);
            proof {
                assert(params.deep_view() =~= pv_old + seq![f@]) by {
                    assert(params@.len() == pv_old.len() + 1);
                    assert(forall|k: int|
                        0 <= k < pv_old.len() ==> params.deep_view()[k] == pv_old[k]);
                    assert(params@[pv_old.len() as int] == f);
                    assert(params.deep_view()[pv_old.len() as int] =~= f@);
                }
            }
            pos = p4;
            i = i + 1;
        }
        if pos != t.len() {
            proof {
                assert(t@.skip(pos as int).len() != 0);
            }
            return None;
        }
        let e = Envelope::Request { id, method, params };
        proof {
            assert(t@.skip(pos as int).len() == 0);
            assert(parse_spec(t@) == Some(e@));
        }
        if check_env_wf(&e) {
            Some(e)
        } else {
            None
        }
    } else if tag == 0x52 {
        let (id, p1) = match read_field(t, 1) {
            Option::Some(x) => x,
            Option::None => {
                return None;
            },
        };
        if p1 == t.len() {
            return None;
        }
        let sub = t[p1];
        if sub != 0x53 && sub != 0x45 {
            proof {
                assert(t@.skip(p1 as int)[0] == sub);
            }
            return None;
        }
        proof {
            assert(t@.skip(p1 as int)[0] == sub);
        }
        let (p, p2) = match read_field(t, p1 + 1) {
            Option::Some(x) => x,
            Option::None => {
                proof {
                    assert(t@.skip(p1 as int).skip(1) =~= t@.skip(p1 + 1));
                }
                return None;
            },
        };
        proof {
            assert(t@.skip(p1 as int).skip(1) =~= t@.skip(p1 + 1));
        }
        if p2 != t.len() {
            proof {
                assert(t@.skip(p2 as int).len() != 0);
            }
            return None;
        }
        let body = if sub == 0x53 {
            ResponseBody::Result(p)
        } else {
            ResponseBody::Error(p)
        };
        let e = Envelope::Response { id, body };
        proof {
            assert(t@.skip(p2 as int).len() == 0);
            assert(parse_spec(t@) == Some(e@));
        }
        if check_env_wf(&e) {
            Some(e)
        } else {
            None
        }
    } else {
        None
    }
}

} // verus!
