//! Arithmetic in GF(2^8), the field of bytes taken as polynomials over GF(2)
//! modulo x^8 + x^4 + x^3 + x + 1 (0x11b). Addition in this field is XOR.
use vstd::prelude::*;

verus! {

/// A byte times x: the shift to the left, reduced by the field polynomial
/// where the high bit fell out.
pub open spec fn gf_double(a: u8) -> u8 {
    (a << 1) ^ (if a & 0x80 == 0 { 0u8 } else { 0x1bu8 })
}

/// `a` if `b` has the bit `bit`, and else zero.
pub open spec fn gf_term(a: u8, b: u8, bit: u8) -> u8 {
    if b & bit == 0 {
        0
    } else {
        a
    }
}

/// The product of two bytes in the field: the sum, over the bits of `b`, of
/// `a` times the power of x that the bit stands for.
pub open spec fn gf_mul(a: u8, b: u8) -> u8 {
    let a1 = gf_double(a);
    let a2 = gf_double(a1);
    let a3 = gf_double(a2);
    let a4 = gf_double(a3);
    let a5 = gf_double(a4);
    let a6 = gf_double(a5);
    let a7 = gf_double(a6);
    gf_term(a, b, 0x01) ^ gf_term(a1, b, 0x02) ^ gf_term(a2, b, 0x04) ^ gf_term(a3, b, 0x08)
        ^ gf_term(a4, b, 0x10) ^ gf_term(a5, b, 0x20) ^ gf_term(a6, b, 0x40) ^ gf_term(
        a7,
        b,
        0x80,
    )
}

/// The multiplicative inverse of a byte in the field, and zero for zero.
pub open spec fn gf_inv(a: u8) -> u8 {
    if a == 0 {
        0
    } else {
        choose|x: u8| gf_mul(a, x) == 1
    }
}

/// Doubling in the field is the doubling of the number for a byte below
/// 0x80, and for the others the doubled number XORed with 0x11b, of which
/// the low eight bits are left.
pub proof fn lemma_gf_double_by_numbers(a: u8)
    by (bit_vector)
    ensures
        a < 0x80 ==> gf_double(a) == 2 * a,
        a >= 0x80 ==> gf_double(a) == (((2 * a) as u16) ^ 0x11b) as u8,
{
}

/// The product does not depend on the order of its factors.
#[verifier::rlimit(40)]
pub proof fn lemma_gf_mul_commutative(a: u8, b: u8)
    by (bit_vector)
    ensures
        gf_mul(a, b) == gf_mul(b, a),
{
}

/// One is the unit of the product, zero gives zero, and two doubles.
pub proof fn lemma_gf_mul_by_small(a: u8)
    by (bit_vector)
    ensures
        gf_mul(1, a) == a,
        gf_mul(0, a) == 0,
        gf_mul(2, a) == gf_double(a),
        gf_mul(3, a) == gf_double(a) ^ a,
{
}

/// The product distributes over the sum, which is the XOR.
pub proof fn lemma_gf_mul_distributive(a: u8, b: u8, c: u8)
    by (bit_vector)
    ensures
        gf_mul(a, b ^ c) == gf_mul(a, b) ^ gf_mul(a, c),
{
}

/// A byte times x in the field.
pub fn double(a: u8) -> (r: u8)
    ensures
        r == gf_double(a),
{
    (a << 1) ^ (if a & 0x80 == 0 {
        0
    } else {
        0x1b
    })
}

fn term(a: u8, b: u8, bit: u8) -> (r: u8)
    ensures
        r == gf_term(a, b, bit),
{
    if b & bit == 0 {
        0
    } else {
        a
    }
}

/// The product of two bytes in the field.
pub fn multiply(a: u8, b: u8) -> (r: u8)
    ensures
        r == gf_mul(a, b),
{
    let a1: u8 = double(a);
    let a2: u8 = double(a1);
    let a3: u8 = double(a2);
    let a4: u8 = double(a3);
    let a5: u8 = double(a4);
    let a6: u8 = double(a5);
    let a7: u8 = double(a6);
    term(a, b, 0x01) ^ term(a1, b, 0x02) ^ term(a2, b, 0x04) ^ term(a3, b, 0x08) ^ term(
        a4,
        b,
        0x10,
    ) ^ term(a5, b, 0x20) ^ term(a6, b, 0x40) ^ term(a7, b, 0x80)
}

} // verus!
