//! Reading and writing bit fields of a 64-bit word.
use vstd::prelude::*;

verus! {

use vstd::arithmetic::power2::{pow2, lemma2_to64, lemma2_to64_rest, lemma_pow2_adds, lemma_pow2_pos};
use vstd::arithmetic::div_mod::{
    lemma_div_denominator,
    lemma_fundamental_div_mod,
    lemma_fundamental_div_mod_converse,
    lemma_mod_bound,
    lemma_mod_add_multiples_vanish,
    lemma_small_mod,
};
use vstd::bits::{
    lemma_u64_low_bits_mask_is_mod,
    lemma_u64_pow2_no_overflow,
    lemma_u64_shl_is_mul,
    lemma_u64_shr_is_div,
    low_bits_mask,
};

/// `n` is representable as an unsigned value in `width` bits.
pub open spec fn fits_unsigned(n: int, width: nat) -> bool {
    0 <= n < pow2(width)
}

/// `n` is representable in `width` bits of two's complement.
pub open spec fn fits_signed(n: int, width: nat) -> bool {
    if width == 0 {
        n == 0
    } else {
        -pow2((width - 1) as nat) <= n < pow2((width - 1) as nat)
    }
}

/// The `width` bits of `word` that begin at bit `lsb`, read as an unsigned number.
pub open spec fn field_value(word: nat, width: nat, lsb: nat) -> nat {
    (word / pow2(lsb)) % pow2(width)
}

/// The `width` bits of `word` that begin at bit `lsb`, read in two's complement.
pub open spec fn signed_field_value(word: nat, width: nat, lsb: nat) -> int {
    let u = field_value(word, width, lsb);
    if width > 0 && u >= pow2((width - 1) as nat) {
        u - pow2(width)
    } else {
        u as int
    }
}

/// `word` with the `width` bits that begin at bit `lsb` replaced by the low
/// `width` bits of `value` (for a negative `value`, its two's complement).
pub open spec fn with_field(word: nat, width: nat, lsb: nat, value: int) -> nat {
    word % pow2(lsb) + (value % pow2(width) as int) as nat * pow2(lsb)
        + word / pow2(lsb + width) * pow2(lsb + width)
}

/// The all-ones mask of the low `width` bits.
fn low_mask(width: u64) -> (m: u64)
    requires
        width <= 64,
    ensures
        m == low_bits_mask(width as nat),
        width < 64 ==> m == (1u64 << width) - 1,
{
    if width == 64 {
        proof {
            lemma2_to64_rest();
        }
        u64::MAX
    } else {
        proof {
            lemma_u64_pow2_no_overflow(width as nat);
            lemma_u64_shl_is_mul(1, width);
        }
        (1u64 << width) - 1
    }
}

/// Returns whether the unsigned value `n` fits into `width` unsigned bits.
pub fn fitsu(n: u64, width: u64) -> (r: bool)
    requires
        width <= 64,
    ensures
        r == fits_unsigned(n as int, width as nat),
{
    proof {
        lemma_pow2_pos(width as nat);
    }
    n <= low_mask(width)
}

/// Returns whether the signed value `n` fits into `width` bits of two's
/// complement.
pub fn fitss(n: i64, width: u64) -> (r: bool)
    requires
        width <= 64,
    ensures
        r == fits_signed(n as int, width as nat),
{
    if width == 0 {
        return n == 0;
    }
    if width == 64 {
        proof {
            lemma2_to64_rest();
        }
        return true;
    }
    proof {
        lemma_u64_pow2_no_overflow((width - 1) as nat);
        lemma_u64_shl_is_mul(1, (width - 1) as u64);
    }
    let half = 1u64 << (width - 1);
    if n >= 0 {
        (n as u64) < half
    } else {
        ((-(n + 1)) as u64) < half
    }
}

/// Retrieves the unsigned value held in the `width` bits of `word` that begin
/// at its least-significant bit `lsb`.
pub fn getu(word: u64, width: u64, lsb: u64) -> (r: u64)
    requires
        width + lsb <= 64,
    ensures
        r == field_value(word as nat, width as nat, lsb as nat),
{
    proof {
        lemma_pow2_pos(lsb as nat);
        lemma_pow2_pos(width as nat);
    }
    if width == 0 {
        proof {
            lemma2_to64();
        }
        return 0;
    }
    if width == 64 {
        proof {
            lemma2_to64();
            lemma2_to64_rest();
            assert(word as nat / 1 == word);
            assert(word < pow2(64));
        }
        return word;
    }
    let shifted = word >> lsb;
    proof {
        lemma_u64_shr_is_div(word, lsb);
        lemma_u64_low_bits_mask_is_mod(shifted, width as nat);
        lemma_u64_pow2_no_overflow(width as nat);
    }
    shifted & low_mask(width)
}

/// Retrieves the signed value held, in two's complement, in the `width` bits of
/// `word` that begin at its least-significant bit `lsb`.
pub fn gets(word: u64, width: u64, lsb: u64) -> (r: i64)
    requires
        width + lsb <= 64,
    ensures
        r == signed_field_value(word as nat, width as nat, lsb as nat),
{
    let u = getu(word, width, lsb);
    if width == 0 {
        proof {
            lemma2_to64();
        }
        return 0;
    }
    proof {
        lemma_u64_pow2_no_overflow((width - 1) as nat);
        lemma_u64_shl_is_mul(1, (width - 1) as u64);
        lemma_pow2_adds((width - 1) as nat, 1);
        lemma2_to64();
        lemma2_to64_rest();
        lemma_pow2_pos(width as nat);
        assert(u < pow2(width as nat)) by {
            assert(u == field_value(word as nat, width as nat, lsb as nat));
        }
    }
    let half = 1u64 << (width - 1);
    if u < half {
        u as i64
    } else {
        let d = low_mask(width) - u;
        -(d as i64) - 1
    }
}

/// Bitwise facts about replacing a field: the bits below and above it are
/// kept, and the field then holds `value`.
proof fn lemma_replace_bits(word: u64, value: u64, width: u64, lsb: u64)
    by (bit_vector)
    requires
        width + lsb < 64,
        value <= (1u64 << width) - 1,
    ensures
        ({
            let r = (word & !((((1u64 << width) - 1) as u64) << lsb)) | (value << lsb);
            &&& r & (((1u64 << lsb) - 1) as u64) == word & (((1u64 << lsb) - 1) as u64)
            &&& (r >> lsb) & (((1u64 << width) - 1) as u64) == value
            &&& r >> ((lsb + width) as u64) == word >> ((lsb + width) as u64)
        }),
{
}

/// A number splits into the part below `a`, the next digit in base `b`
/// above it, and the part at and above `a * b`.
proof fn lemma_split_three(x: nat, a: nat, b: nat)
    requires
        a > 0,
        b > 0,
    ensures
        x == x % a + ((x / a) % b) * a + (x / (a * b)) * (a * b),
{
    lemma_fundamental_div_mod(x as int, a as int);
    lemma_fundamental_div_mod((x / a) as int, b as int);
    lemma_div_denominator(x as int, a as int, b as int);
    let q = x / a;
    let low = x % a;
    let mid = q % b;
    let high = q / b;
    assert(x == low + mid * a + high * (a * b)) by (nonlinear_arith)
        requires
            x == a * q + low,
            q == b * high + mid,
    ;
}

/// Returns `word` with the `width` bits that begin at its least-significant
/// bit `lsb` replaced by the unsigned `value`, or `None` when `value` does not
/// fit in `width` unsigned bits.
pub fn newu(word: u64, width: u64, lsb: u64, value: u64) -> (r: Option<u64>)
    requires
        width + lsb < 64,
    ensures
        r is Some <==> fits_unsigned(value as int, width as nat),
        r matches Some(w) ==> w == with_field(word as nat, width as nat, lsb as nat, value as int),
{
    if !fitsu(value, width) {
        return None;
    }
    let mask = low_mask(width);
    let result = (word & !(mask << lsb)) | (value << lsb);
    proof {
        let l = lsb as nat;
        let w = width as nat;
        lemma_replace_bits(word, value, width, lsb);
        lemma_u64_pow2_no_overflow(l);
        lemma_u64_shl_is_mul(1, lsb);
        lemma_u64_pow2_no_overflow(w);
        lemma_u64_pow2_no_overflow(l + w);
        lemma_u64_low_bits_mask_is_mod(result, l);
        lemma_u64_low_bits_mask_is_mod(word, l);
        lemma_u64_shr_is_div(result, lsb);
        lemma_u64_low_bits_mask_is_mod(result >> lsb, w);
        lemma_u64_shr_is_div(result, (lsb + width) as u64);
        lemma_u64_shr_is_div(word, (lsb + width) as u64);
        lemma_pow2_adds(l, w);
        lemma_split_three(result as nat, pow2(l), pow2(w));
        lemma_small_mod(value as nat, pow2(w));
    }
    Some(result)
}

/// Returns `word` with the `width` bits that begin at its least-significant
/// bit `lsb` replaced by the two's complement of `value`, or `None` when
/// `value` does not fit in `width` signed bits.
pub fn news(word: u64, width: u64, lsb: u64, value: i64) -> (r: Option<u64>)
    requires
        width + lsb < 64,
    ensures
        r is Some <==> fits_signed(value as int, width as nat),
        r matches Some(w) ==> w == with_field(word as nat, width as nat, lsb as nat, value as int),
{
    if !fitss(value, width) {
        return None;
    }
    let mask = low_mask(width);
    proof {
        lemma_u64_pow2_no_overflow(width as nat);
        lemma_pow2_pos(width as nat);
        if width > 0 {
            lemma_pow2_adds((width - 1) as nat, 1);
            lemma2_to64();
        }
    }
    let bits = if value >= 0 {
        value as u64
    } else {
        mask - ((-(value + 1)) as u64)
    };
    proof {
        let m = pow2(width as nat) as int;
        if value >= 0 {
            lemma_small_mod(value as nat, m as nat);
        } else {
            lemma_small_mod(bits as nat, m as nat);
            lemma_mod_add_multiples_vanish(value as int, m);
        }
        assert(bits as int % m == value as int % m);
    }
    newu(word, width, lsb, bits)
}

/// After a field is written, it reads back as the written value reduced to the
/// field's width.
proof fn lemma_field_of_with_field(word: nat, width: nat, lsb: nat, value: int)
    ensures
        field_value(with_field(word, width, lsb, value), width, lsb) == value % pow2(width) as int,
{
    let a = pow2(lsb);
    let b = pow2(width);
    lemma_pow2_pos(lsb);
    lemma_pow2_pos(width);
    lemma_pow2_adds(lsb, width);
    lemma_mod_bound(value, b as int);
    let low = (word % a) as int;
    let v = value % b as int;
    let high = (word / pow2(lsb + width)) as int;
    let x = with_field(word, width, lsb, value) as int;
    let q = v + high * b;
    assert(x == q * a + low) by (nonlinear_arith)
        requires
            x == low + v * a + high * (a * b),
            q == v + high * b,
    ;
    lemma_fundamental_div_mod_converse(x, a as int, q, low);
    lemma_fundamental_div_mod_converse(q, b as int, high, v);
}

/// Writing an unsigned value that fits a field and then reading the field
/// gives the value back, whatever the word held before.
pub proof fn lemma_round_trip_unsigned(word: u64, width: u64, lsb: u64, value: u64)
    requires
        width + lsb < 64,
        fits_unsigned(value as int, width as nat),
    ensures
        field_value(with_field(word as nat, width as nat, lsb as nat, value as int), width as nat, lsb as nat)
            == value,
{
    lemma_field_of_with_field(word as nat, width as nat, lsb as nat, value as int);
    lemma_small_mod(value as nat, pow2(width as nat));
}

/// Writing a signed value that fits a field and then reading the field as a
/// signed value gives the value back, whatever the word held before.
pub proof fn lemma_round_trip_signed(word: u64, width: u64, lsb: u64, value: i64)
    requires
        width + lsb < 64,
        fits_signed(value as int, width as nat),
    ensures
        signed_field_value(with_field(word as nat, width as nat, lsb as nat, value as int), width as nat, lsb as nat)
            == value,
{
    let w = width as nat;
    lemma_field_of_with_field(word as nat, w, lsb as nat, value as int);
    if w == 0 {
        lemma2_to64();
    } else {
        let m = pow2(w) as int;
        lemma_pow2_adds((w - 1) as nat, 1);
        lemma2_to64();
        if value >= 0 {
            lemma_small_mod(value as nat, m as nat);
        } else {
            lemma_small_mod((value + m) as nat, m as nat);
            lemma_mod_add_multiples_vanish(value as int, m);
        }
    }
}

} // verus!
