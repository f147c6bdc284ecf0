//! Length-prefixed framing for the canonical envelope text.
//!
//! A field is written as eight lowercase hexadecimal digits giving the
//! field's byte length, followed by the field's bytes themselves.  The
//! fixed-width prefix makes the framing unambiguous without any escaping.

use vstd::prelude::*;

verus! {

/// 16 raised to the power k.
pub open spec fn pow16(k: nat) -> nat
    decreases k,
{
    if k == 0 {
        1
    } else {
        16 * pow16((k - 1) as nat)
    }
}

pub proof fn lemma_pow16_8()
    ensures
        pow16(8) == 0x1_0000_0000,
{
    reveal_with_fuel(pow16, 9);
}

pub proof fn lemma_pow16_le(a: nat, b: nat)
    requires
        a <= b,
    ensures
        pow16(a) <= pow16(b),
    decreases b,
{
    if a < b {
        lemma_pow16_le(a, (b - 1) as nat);
        assert(pow16(b) == 16 * pow16((b - 1) as nat));
    }
}

/// The byte of one lowercase hexadecimal digit.
pub open spec fn hex_digit(d: nat) -> u8 {
    if d < 10 {
        (0x30 + d) as u8
    } else {
        (0x57 + d) as u8
    }
}

/// Whether a byte is a lowercase hexadecimal digit.
pub open spec fn is_hex_byte(b: u8) -> bool {
    (0x30 <= b && b <= 0x39) || (0x61 <= b && b <= 0x66)
}

/// The value of one lowercase hexadecimal digit byte.
pub open spec fn hex_val(b: u8) -> nat {
    if b <= 0x39 {
        (b - 0x30) as nat
    } else {
        (b - 0x57) as nat
    }
}

pub open spec fn all_hex(s: Seq<u8>) -> bool {
    forall|i: int| 0 <= i < s.len() ==> is_hex_byte(s[i])
}

/// The k lowercase hex digits of n, most significant first.
pub open spec fn hexn(n: nat, k: nat) -> Seq<u8>
    decreases k,
{
    if k == 0 {
        Seq::empty()
    } else {
        hexn(n / 16, (k - 1) as nat).push(hex_digit(n % 16))
    }
}

/// The value of a big-endian sequence of hex digit bytes.
pub open spec fn unhexn(s: Seq<u8>) -> nat
    decreases s.len(),
{
    if s.len() == 0 {
        0
    } else {
        unhexn(s.drop_last()) * 16 + hex_val(s.last())
    }
}

pub proof fn lemma_hexn_unhexn(n: nat, k: nat)
    requires
        n < pow16(k),
    ensures
        hexn(n, k).len() == k,
        all_hex(hexn(n, k)),
        unhexn(hexn(n, k)) == n,
    decreases k,
{
    if k == 0 {
    } else {
        let k1 = (k - 1) as nat;
        assert(pow16(k) == 16 * pow16(k1));
        assert(n == 16 * (n / 16) + n % 16);
        assert(n / 16 < pow16(k1));
        lemma_hexn_unhexn(n / 16, k1);
        let s = hexn(n / 16, k1);
        let d = hex_digit(n % 16);
        assert(hexn(n, k) == s.push(d));
        assert(s.push(d).drop_last() =~= s);
        assert(s.push(d).last() == d);
        assert(hex_val(d) == n % 16);
        assert(unhexn(s.push(d)) == unhexn(s) * 16 + hex_val(d));
        assert(unhexn(hexn(n, k)) == (n / 16) * 16 + n % 16);
        assert(forall|i: int| 0 <= i < s.push(d).len() ==> is_hex_byte(s.push(d)[i])) by {
            assert(forall|i: int| 0 <= i < s.len() ==> is_hex_byte(#[trigger] s.push(d)[i]));
            assert(s.push(d)[s.len() as int] == d);
            assert(is_hex_byte(d));
        }
    }
}

/// One framed field: the length as eight hex digits, then the bytes.
pub open spec fn field_enc(s: Seq<u8>) -> Seq<u8> {
    hexn(s.len(), 8) + s
}

/// Reads an eight-digit hex count from the front of t.
pub open spec fn parse_count(t: Seq<u8>) -> Option<(nat, Seq<u8>)> {
    if t.len() < 8 {
        None
    } else if !all_hex(t.subrange(0, 8)) {
        None
    } else {
        Some((unhexn(t.subrange(0, 8)), t.skip(8)))
    }
}

/// Reads one framed field from the front of t.
pub open spec fn parse_field(t: Seq<u8>) -> Option<(Seq<u8>, Seq<u8>)> {
    match parse_count(t) {
        Option::None => Option::None,
        Option::Some((n, rest)) => if rest.len() < n {
            Option::None
        } else {
            Option::Some((rest.subrange(0, n as int), rest.skip(n as int)))
        },
    }
}

pub proof fn lemma_parse_count_enc(n: nat, rest: Seq<u8>)
    requires
        n < pow16(8),
    ensures
        parse_count(hexn(n, 8) + rest) == Some((n, rest)),
{
    lemma_hexn_unhexn(n, 8);
    let t = hexn(n, 8) + rest;
    assert(t.subrange(0, 8) =~= hexn(n, 8));
    assert(t.skip(8) =~= rest);
}

/// Parsing undoes framing: a framed field followed by anything reads back
/// as exactly that field and the remainder.
pub proof fn lemma_parse_field_enc(s: Seq<u8>, rest: Seq<u8>)
    requires
        s.len() < pow16(8),
    ensures
        parse_field(field_enc(s) + rest) == Some((s, rest)),
{
    let t = field_enc(s) + rest;
    assert(t =~= hexn(s.len(), 8) + (s + rest));
    lemma_parse_count_enc(s.len(), s + rest);
    assert((s + rest).subrange(0, s.len() as int) =~= s);
    assert((s + rest).skip(s.len() as int) =~= rest);
}

pub fn hex_digit_byte(d: u8) -> (r: u8)
    requires
        d < 16,
    ensures
        r == hex_digit(d as nat),
{
    if d < 10 {
        0x30 + d
    } else {
        0x57 + d
    }
}

/// Appends the bytes of s to v.
pub fn append_bytes(v: &mut Vec<u8>, s: &Vec<u8>)
    ensures
        final(v)@ == old(v)@ + s@,
{
    let mut i: usize = 0;
    while i < s.len()
        invariant
            i <= s@.len(),
            v@ == old(v)@ + s@.take(i as int),
        decreases s@.len() - i,
    {
        v.push(s[i]);
        proof {
            assert(s@.take(i + 1) =~= s@.take(i as int).push(s@[i as int]));
            assert(v@ =~= old(v)@ + s@.take(i + 1));
        }
        i = i + 1;
    }
    proof {
        assert(s@.take(s@.len() as int) =~= s@);
    }
}

/// Appends the k lowercase hex digits of n to v.
pub fn push_hexn(v: &mut Vec<u8>, n: u64, k: usize)
    ensures
        final(v)@ == old(v)@ + hexn(n as nat, k as nat),
    decreases k,
{
    if k == 0 {
        proof {
            assert(v@ =~= old(v)@ + hexn(n as nat, 0));
        }
    } else {
        push_hexn(v, n / 16, k - 1);
        let d: u8 = (n % 16) as u8;
        v.push(hex_digit_byte(d));
        proof {
            assert((n % 16) as nat == (n as nat) % 16);
            assert((n / 16) as nat == (n as nat) / 16);
            assert(v@ =~= old(v)@ + hexn(n as nat, k as nat));
        }
    }
}

/// Appends one framed field to v.
pub fn push_field(v: &mut Vec<u8>, s: &Vec<u8>)
    ensures
        final(v)@ == old(v)@ + field_enc(s@),
{
    push_hexn(v, s.len() as u64, 8);
    let ghost mid = v@;
    let mut i: usize = 0;
    while i < s.len()
        invariant
            i <= s@.len(),
            v@ == mid + s@.take(i as int),
            mid == old(v)@ + hexn(s@.len(), 8),
        decreases s@.len() - i,
    {
        v.push(s[i]);
        proof {
            assert(s@.take(i + 1) =~= s@.take(i as int).push(s@[i as int]));
        }
        i = i + 1;
    }
    proof {
        assert(s@.take(s@.len() as int) =~= s@);
        assert(v@ =~= old(v)@ + field_enc(s@));
    }
}

/// Reads an eight-digit hex count at position pos of t.
pub fn read_count(t: &Vec<u8>, pos: usize) -> (r: Option<(u64, usize)>)
    requires
        pos <= t@.len(),
    ensures
        match r {
            Option::Some((n, p2)) => {
                &&& p2 == pos + 8 <= t@.len()
                &&& (n as nat) < pow16(8)
                &&& parse_count(t@.skip(pos as int)) == Some(((n as nat), t@.skip(p2 as int)))
            },
            Option::None => parse_count(t@.skip(pos as int)) is None,
        },
{
    proof {
        lemma_pow16_8();
    }
    if t.len() - pos < 8 {
        return None;
    }
    let ghost lenpart = t@.skip(pos as int).subrange(0, 8);
    proof {
        assert(lenpart =~= t@.subrange(pos as int, pos + 8));
    }
    let mut val: u64 = 0;
    let mut j: usize = 0;
    while j < 8
        invariant
            j <= 8,
            pos + 8 <= t@.len(),
            t@.len() <= usize::MAX,
            lenpart == t@.subrange(pos as int, pos + 8),
            lenpart == t@.skip(pos as int).subrange(0, 8),
            all_hex(lenpart.take(j as int)),
            val as nat == unhexn(lenpart.take(j as int)),
            (val as nat) < pow16(j as nat),
        decreases 8 - j,
    {
        let b = t[pos + j];
        proof {
            assert(lenpart[j as int] == b);
        }
        let d: u8;
        if 0x30 <= b && b <= 0x39 {
            d = b - 0x30;
        } else if 0x61 <= b && b <= 0x66 {
            d = b - 0x57;
        } else {
            proof {
                assert(!is_hex_byte(lenpart[j as int]));
                assert(!all_hex(lenpart));
            }
            return None;
        }
        proof {
            assert(is_hex_byte(b));
            assert(d as nat == hex_val(b));
            assert(pow16((j + 1) as nat) == 16 * pow16(j as nat));
            lemma_pow16_le((j + 1) as nat, 8);
            lemma_pow16_8();
            assert(lenpart.take(j + 1) =~= lenpart.take(j as int).push(b));
            assert(lenpart.take(j + 1).drop_last() =~= lenpart.take(j as int));
            assert(unhexn(lenpart.take(j + 1)) == unhexn(lenpart.take(j as int)) * 16 + hex_val(
                b,
            ));
            assert(forall|i: int|
                0 <= i < j + 1 ==> is_hex_byte(#[trigger] lenpart.take(j + 1)[i]));
        }
        val = val * 16 + (d as u64);
        j = j + 1;
    }
    proof {
        assert(lenpart.take(8) =~= lenpart);
        lemma_pow16_8();
    }
    Some((val, pos + 8))
}

/// Reads one framed field at position pos of t.
pub fn read_field(t: &Vec<u8>, pos: usize) -> (r: Option<(Vec<u8>, usize)>)
    requires
        pos <= t@.len(),
    ensures
        match r {
            Option::Some((f, p2)) => {
                &&& pos <= p2 <= t@.len()
                &&& f@.len() < pow16(8)
                &&& parse_field(t@.skip(pos as int)) == Some((f@, t@.skip(p2 as int)))
            },
            Option::None => parse_field(t@.skip(pos as int)) is None,
        },
{
    let (n64, p1) = match read_count(t, pos) {
        Option::Some(x) => x,
        Option::None => {
            return None;
        },
    };
    if (n64 as u128) > (t.len() - p1) as u128 {
        return None;
    }
    let n: usize = n64 as usize;
    let mut f: Vec<u8> = Vec::new();
    let mut k: usize = 0;
    while k < n
        invariant
            k <= n,
            p1 + n <= t@.len(),
            t@.len() <= usize::MAX,
            f@ == t@.subrange(p1 as int, p1 + k),
        decreases n - k,
    {
        f.push(t[p1 + k]);
        proof {
            assert(t@.subrange(p1 as int, p1 + k + 1) =~= t@.subrange(p1 as int, p1 + k).push(
                t@[p1 + k],
            ));
        }
        k = k + 1;
    }
    proof {
        let rest = t@.skip(p1 as int);
        assert(rest.subrange(0, n as int) =~= t@.subrange(p1 as int, p1 + n));
        assert(rest.skip(n as int) =~= t@.skip(p1 + n));
    }
    Some((f, p1 + n))
}

} // verus!
