//! Memory status figures and their display as sizes.

use vstd::prelude::*;
use crate::text::{decimal_chars, push_chars, spec_decimal_digits, spec_digit_char, string_push};

verus! {

pub const GB: u64 = 1073741824;
pub const MB: u64 = 1048576;
/// Integers below this convert to `f64` exactly.
pub const F64_EXACT_LIMIT: u64 = 9007199254740992;

#[derive(Debug, Clone, Copy, PartialEq, Eq, Structural)]
pub struct MemoryStatus {
    pub memory_load: u32,
    pub total_phys: u64,
    pub avail_phys: u64,
    pub total_page_file: u64,
    pub avail_page_file: u64,
}

pub open spec fn spec_pow2(e: nat) -> nat
    decreases e,
{
    if e == 0 {
        1
    } else {
        2 * spec_pow2((e - 1) as nat)
    }
}

/// The smallest shift at or above `e` that brings `x` below 2^53.
pub open spec fn spec_f64_shift(x: nat, e: nat) -> nat
    decreases 64 - e,
{
    if e >= 64 || x / spec_pow2(e) < F64_EXACT_LIMIT {
        e
    } else {
        spec_f64_shift(x, e + 1)
    }
}

/// `x as f64` for a `u64`: nearest value with a 53-bit significand, ties to even.
pub open spec fn spec_f64_round(x: nat) -> nat {
    let e = spec_f64_shift(x, 0);
    let p = spec_pow2(e);
    let q = x / p;
    let r = x % p;
    if e == 0 {
        x
    } else if r > p / 2 || (r == p / 2 && q % 2 == 1) {
        (q + 1) * p
    } else {
        q * p
    }
}

/// `value / unit` rounded to hundredths, ties to even, as `{:.2}` prints an exact quotient.
pub open spec fn spec_hundredths(value: nat, unit: nat) -> nat {
    let n = (value * 100) / unit;
    let frac = (value * 100) % unit;
    if frac > unit / 2 || (frac == unit / 2 && n % 2 == 1) {
        n + 1
    } else {
        n
    }
}

/// A size in GB (at or above 1 GiB) or else MB, with two decimals, as
/// `format!("{:.2} GB", bytes as f64 / GB as f64)` prints it.
pub open spec fn spec_format_bytes(bytes: u64) -> Seq<char> {
    let unit: nat = if bytes >= GB { GB as nat } else { MB as nat };
    let n = spec_hundredths(spec_f64_round(bytes as nat), unit);
    spec_decimal_digits(n / 100) + seq!['.', spec_digit_char((n % 100) / 10), spec_digit_char(n % 10)]
        + (if bytes >= GB { seq![' ', 'G', 'B'] } else { seq![' ', 'M', 'B'] })
}

proof fn lemma_pow2_positive(e: nat)
    ensures
        spec_pow2(e) >= 1,
    decreases e,
{
    if e > 0 {
        lemma_pow2_positive((e - 1) as nat);
    }
}

fn f64_rounded(x: u64) -> (r: u128)
    ensures
        r == spec_f64_round(x as nat),
        r <= 18446744073709551616,
{
    let mut p: u64 = 1;
    let ghost mut e: nat = 0;
    while x / p >= F64_EXACT_LIMIT
        invariant
            e <= 11,
            p as nat == spec_pow2(e),
            p == 1 || p == 2 || p == 4 || p == 8 || p == 16 || p == 32 || p == 64 || p == 128
                || p == 256 || p == 512 || p == 1024 || p == 2048,
            spec_f64_shift(x as nat, 0) == spec_f64_shift(x as nat, e),
        decreases 2048 - p,
    {
        assert(p < 2048) by (nonlinear_arith)
            requires
                x / p >= 9007199254740992,
                p >= 1,
                x <= u64::MAX,
        ;
        proof {
            if e == 11 {
                assert(spec_pow2(11) == 2048) by {
                    reveal_with_fuel(spec_pow2, 12);
                }
            }
            assert(spec_pow2(e + 1) == 2 * spec_pow2(e));
        }
        p = p * 2;
        proof {
            e = e + 1;
        }
    }
    assert(spec_f64_shift(x as nat, e) == e);
    if p == 1 {
        proof {
            if e > 0 {
                lemma_pow2_even(e);
            }
        }
        return x as u128;
    }
    assert(e > 0);
    let q = x / p;
    let rem = x % p;
    let half = p / 2;
    assert(q * p <= x) by (nonlinear_arith)
        requires
            q == x / p,
            p >= 1,
    ;
    if rem > half || (rem == half && q % 2 == 1) {
        let ghost k: int = 18446744073709551616int / (p as int);
        assert(k * p == 18446744073709551616int);
        assert((q + 1) * p <= 18446744073709551616int) by (nonlinear_arith)
            requires
                q * p <= x,
                x <= u64::MAX,
                k * p == 18446744073709551616int,
                p >= 1,
        ;
        (q as u128 + 1) * (p as u128)
    } else {
        (q as u128) * (p as u128)
    }
}

proof fn lemma_pow2_even(e: nat)
    requires
        e > 0,
    ensures
        spec_pow2(e) % 2 == 0,
        spec_pow2(e) >= 2,
{
    lemma_pow2_positive((e - 1) as nat);
}

impl MemoryStatus {
    pub fn used_phys(&self) -> (r: u64)
        ensures
            r == (if self.total_phys >= self.avail_phys {
                (self.total_phys - self.avail_phys) as u64
            } else {
                0u64
            }),
    {
        if self.total_phys >= self.avail_phys {
            self.total_phys - self.avail_phys
        } else {
            0
        }
    }

    /// A byte count in GB (from 1 GiB up) or MB, with two decimals.
    pub fn format_bytes(bytes: u64) -> (r: String)
        ensures
            r@ == spec_format_bytes(bytes),
    {
        let b = f64_rounded(bytes);
        let unit: u128 = if bytes >= GB {
            GB as u128
        } else {
            MB as u128
        };
        let scaled = b * 100;
        let n0 = scaled / unit;
        let frac = scaled % unit;
        let n = if frac > unit / 2 || (frac == unit / 2 && n0 % 2 == 1) {
            n0 + 1
        } else {
            n0
        };
        assert(n == spec_hundredths(b as nat, unit as nat));
        assert(n / 100 <= u64::MAX) by (nonlinear_arith)
            requires
                n <= n0 + 1,
                n0 == scaled / unit,
                scaled == b * 100,
                b <= 18446744073709551616,
                unit >= 1048576,
        ;
        let whole = (n / 100) as u64;
        let mut out = String::new();
        let digits = decimal_chars(whole);
        push_chars(&mut out, &digits);
        string_push(&mut out, '.');
        let tenths = ((n % 100) / 10) as u32;
        let cents = (n % 10) as u32;
        string_push(&mut out, ((tenths + '0' as u32) as u8) as char);
        string_push(&mut out, ((cents + '0' as u32) as u8) as char);
        string_push(&mut out, ' ');
        if bytes >= GB {
            string_push(&mut out, 'G');
        } else {
            string_push(&mut out, 'M');
        }
        string_push(&mut out, 'B');
        assert(out@ =~= spec_format_bytes(bytes));
        out
    }
}

/// A memory section's header: its title and its total size, `Title (8.00 GB)`.
pub fn section_header(title: &str, total: u64) -> (r: String)
    ensures
        r@ == title@ + " ("@ + spec_format_bytes(total) + ")"@,
{
    let mut out = String::new();
    crate::text::push_str(&mut out, title);
    crate::text::push_str(&mut out, " (");
    let size = MemoryStatus::format_bytes(total);
    crate::text::push_str(&mut out, size.as_str());
    crate::text::push_str(&mut out, ")");
    out
}

/// A section without figures (total 0) shows a dash in place of its usage.
pub fn section_is_unavailable(total: u64) -> (r: bool)
    ensures
        r == (total == 0),
{
    total == 0
}

} // verus!
