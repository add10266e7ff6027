//! UTF-16 as Windows hands it over: NUL-terminated buffers, lossy decoding and encoding.

use vstd::prelude::*;

verus! {

pub open spec fn spec_is_surrogate(u: u16) -> bool {
    0xD800 <= u && u <= 0xDFFF
}

pub open spec fn spec_is_lead(u: u16) -> bool {
    0xD800 <= u && u <= 0xDBFF
}

pub open spec fn spec_is_trail(u: u16) -> bool {
    0xDC00 <= u && u <= 0xDFFF
}

/// The code point of a lead/trail surrogate pair.
pub open spec fn spec_pair_value(hi: u16, lo: u16) -> int {
    0x10000 + (hi - 0xD800) * 0x400 + (lo - 0xDC00)
}

/// Lossy UTF-16 decoding: a well-formed pair gives its code point, any unpaired
/// surrogate gives U+FFFD, every other unit gives itself.
pub open spec fn spec_decode_utf16(u: Seq<u16>) -> Seq<char>
    decreases u.len(),
{
    if u.len() == 0 {
        seq![]
    } else if u.len() >= 2 && spec_is_lead(u[0]) && spec_is_trail(u[1]) {
        seq![spec_pair_value(u[0], u[1]) as char] + spec_decode_utf16(u.skip(2))
    } else if spec_is_surrogate(u[0]) {
        seq!['\u{FFFD}'] + spec_decode_utf16(u.skip(1))
    } else {
        seq![u[0] as char] + spec_decode_utf16(u.skip(1))
    }
}

/// The UTF-16 units of one character.
pub open spec fn spec_encode_char(c: char) -> Seq<u16> {
    if (c as u32) < 0x10000 {
        seq![(c as u32) as u16]
    } else {
        let v = (c as u32) - 0x10000;
        seq![(0xD800 + v / 0x400) as u16, (0xDC00 + v % 0x400) as u16]
    }
}

/// The UTF-16 encoding of a character sequence.
pub open spec fn spec_encode_utf16(s: Seq<char>) -> Seq<u16>
    decreases s.len(),
{
    if s.len() == 0 {
        seq![]
    } else {
        spec_encode_utf16(s.drop_last()) + spec_encode_char(s.last())
    }
}

/// Number of units before the first NUL (all of them when there is none).
pub open spec fn spec_nul_index(u: Seq<u16>) -> int
    decreases u.len(),
{
    if u.len() == 0 {
        0
    } else if u[0] == 0 {
        0
    } else {
        1 + spec_nul_index(u.drop_first())
    }
}

/// The units before the first NUL.
pub open spec fn spec_until_nul(u: Seq<u16>) -> Seq<u16> {
    u.take(spec_nul_index(u))
}

pub proof fn lemma_nul_index_bounds(u: Seq<u16>)
    ensures
        0 <= spec_nul_index(u) <= u.len(),
        spec_nul_index(u) < u.len() ==> u[spec_nul_index(u)] == 0,
        forall|j: int| 0 <= j < spec_nul_index(u) ==> u[j] != 0,
    decreases u.len(),
{
    if u.len() > 0 && u[0] != 0 {
        lemma_nul_index_bounds(u.drop_first());
        assert forall|j: int| 0 <= j < spec_nul_index(u) implies u[j] != 0 by {
            if j > 0 {
                assert(u[j] == u.drop_first()[j - 1]);
            }
        }
    }
}

pub open spec fn spec_is_scalar(x: u32) -> bool {
    x < 0xD800 || (0xE000 <= x && x <= 0x10FFFF)
}

/// Wraps `char::from_u32`, which accepts exactly the Unicode scalar values.
#[verifier::external_body]
fn char_from_u32(x: u32) -> (r: Option<char>)
    ensures
        spec_is_scalar(x) ==> r == Some(x as char),
        !spec_is_scalar(x) ==> r is None,
{
    char::from_u32(x)
}

/// Index of the first NUL in `u`, or `u.len()`.
pub fn nul_index(u: &[u16]) -> (r: usize)
    ensures
        r as int == spec_nul_index(u@),
        r <= u.len(),
        spec_until_nul(u@) == u@.subrange(0, r as int),
{
    let mut i: usize = 0;
    while i < u.len() && u[i] != 0
        invariant
            i <= u.len(),
            forall|j: int| 0 <= j < i ==> u@[j] != 0,
        decreases u.len() - i,
    {
        i += 1;
    }
    proof {
        lemma_nul_index_bounds(u@);
        let f = spec_nul_index(u@);
        if f < i {
            assert(u@[f] == 0);
        } else if i < f {
            assert(u@[i as int] == 0);
        }
    }
    i
}

/// `spec_decode_utf16(u[from..to])`.
pub fn decode_utf16_lossy(u: &[u16], from: usize, to: usize) -> (r: Vec<char>)
    requires
        from <= to <= u.len(),
    ensures
        r@ == spec_decode_utf16(u@.subrange(from as int, to as int)),
{
    let ghost whole = u@.subrange(from as int, to as int);
    let mut out: Vec<char> = Vec::new();
    let mut i = from;
    assert(whole.skip(0) =~= whole);
    while i < to
        invariant
            from <= i <= to <= u.len(),
            whole == u@.subrange(from as int, to as int),
            spec_decode_utf16(whole) == out@ + spec_decode_utf16(whole.skip(i - from)),
        decreases to - i,
    {
        let ghost rest = whole.skip(i - from);
        let a = u[i];
        assert(rest[0] == a);
        if i + 1 < to && 0xD800 <= a && a <= 0xDBFF && 0xDC00 <= u[i + 1] && u[i + 1] <= 0xDFFF {
            let b = u[i + 1];
            assert(rest[1] == b);
            let v: u32 = 0x10000 + ((a as u32) - 0xD800) * 0x400 + ((b as u32) - 0xDC00);
            assert(v == spec_pair_value(a, b));
            let c = char_from_u32(v);
            assert(rest.skip(2) =~= whole.skip(i + 2 - from));
            out.push(c.unwrap());
            i += 2;
        } else if 0xD800 <= a && a <= 0xDFFF {
            assert(rest.skip(1) =~= whole.skip(i + 1 - from));
            out.push('\u{FFFD}');
            i += 1;
        } else {
            assert(rest.skip(1) =~= whole.skip(i + 1 - from));
            let c = char_from_u32(a as u32);
            out.push(c.unwrap());
            i += 1;
        }
        assert(spec_decode_utf16(whole) == out@ + spec_decode_utf16(whole.skip(i - from)));
    }
    assert(whole.skip(to - from) =~= Seq::<u16>::empty());
    assert(out@ + seq![] =~= out@);
    out
}

/// The UTF-16 encoding of `s`, as `str::encode_utf16` yields it.
pub fn encode_utf16(s: &str) -> (r: Vec<u16>)
    ensures
        r@ == spec_encode_utf16(s@),
{
    let chars = crate::text::str_chars(s);
    let mut out: Vec<u16> = Vec::new();
    let mut i: usize = 0;
    while i < chars.len()
        invariant
            i <= chars.len(),
            chars@ == s@,
            out@ == spec_encode_utf16(chars@.take(i as int)),
        decreases chars.len() - i,
    {
        let c = chars[i];
        let x = c as u32;
        proof {
            vstd::utf8::char_is_scalar(c);
        }
        assert(chars@.take(i + 1).drop_last() =~= chars@.take(i as int));
        assert(chars@.take(i + 1).last() == c);
        if x < 0x10000 {
            out.push(x as u16);
            assert(spec_encode_char(c) =~= seq![x as u16]);
        } else {
            let v = x - 0x10000;
            assert(v / 0x400 <= 0x3FF);
            out.push((0xD800 + v / 0x400) as u16);
            out.push((0xDC00 + v % 0x400) as u16);
            assert(spec_encode_char(c) =~= seq![(0xD800 + v / 0x400) as u16, (0xDC00 + v % 0x400) as u16]);
        }
        assert(out@ =~= spec_encode_utf16(chars@.take(i + 1)));
        i += 1;
    }
    assert(chars@.take(chars.len() as int) =~= chars@);
    out
}

/// `s` in UTF-16 with a terminating NUL, as Windows expects names.
pub fn wide_null(s: &str) -> (r: Vec<u16>)
    ensures
        r@ == spec_encode_utf16(s@).push(0u16),
{
    let mut out = encode_utf16(s);
    out.push(0);
    out
}

/// The text of UTF-16 units, with U+FFFD for each unpaired surrogate.
pub fn wide_to_string(chars: &[u16]) -> (r: String)
    ensures
        r@ == spec_decode_utf16(chars@),
{
    let decoded = decode_utf16_lossy(chars, 0, chars.len());
    assert(chars@.subrange(0, chars@.len() as int) =~= chars@);
    crate::text::string_from_chars(&decoded)
}

} // verus!
