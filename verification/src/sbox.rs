//! The substitution box: the byte substitution of the cipher.
//!
//! A byte goes to the affine image of its inverse in GF(2^8). The compiled code
//! looks the result up in a table of 256 entries; that each entry is what the
//! definition gives is proved here, for all of them.
use crate::gf::{gf_inv, gf_mul};
use crate::matrix::ByteMatrix;
use vstd::prelude::*;

verus! {

/// A byte rotated to the left by `k` bits, for `k` from 1 to 7.
pub open spec fn rotl8(x: u8, k: u8) -> u8 {
    (x << k) | (x >> ((8 - k) as u8))
}

/// The affine map of the substitution: bit `i` of the result is the sum of
/// the bits `i`, `i + 4`, `i + 5`, `i + 6` and `i + 7` (modulo 8) of `x` and
/// bit `i` of 0x63.
pub open spec fn affine(x: u8) -> u8 {
    x ^ rotl8(x, 1) ^ rotl8(x, 2) ^ rotl8(x, 3) ^ rotl8(x, 4) ^ 0x63
}

/// The substitution of one byte.
pub open spec fn sbox(b: u8) -> u8 {
    affine(gf_inv(b))
}

/// The substitution of every byte of a matrix.
pub open spec fn sub_bytes(m: Seq<Seq<u8>>) -> Seq<Seq<u8>> {
    Seq::new(m.len(), |i: int| Seq::new(m[i].len(), |j: int| sbox(m[i][j])))
}

/// The substitution box as a table, indexed by the byte.
pub const SBOX: [u8; 256] = [
    0x63, 0x7c, 0x77, 0x7b, 0xf2, 0x6b, 0x6f, 0xc5, 0x30, 0x01, 0x67, 0x2b, 0xfe, 0xd7, 0xab, 0x76,
    0xca, 0x82, 0xc9, 0x7d, 0xfa, 0x59, 0x47, 0xf0, 0xad, 0xd4, 0xa2, 0xaf, 0x9c, 0xa4, 0x72, 0xc0,
    0xb7, 0xfd, 0x93, 0x26, 0x36, 0x3f, 0xf7, 0xcc, 0x34, 0xa5, 0xe5, 0xf1, 0x71, 0xd8, 0x31, 0x15,
    0x04, 0xc7, 0x23, 0xc3, 0x18, 0x96, 0x05, 0x9a, 0x07, 0x12, 0x80, 0xe2, 0xeb, 0x27, 0xb2, 0x75,
    0x09, 0x83, 0x2c, 0x1a, 0x1b, 0x6e, 0x5a, 0xa0, 0x52, 0x3b, 0xd6, 0xb3, 0x29, 0xe3, 0x2f, 0x84,
    0x53, 0xd1, 0x00, 0xed, 0x20, 0xfc, 0xb1, 0x5b, 0x6a, 0xcb, 0xbe, 0x39, 0x4a, 0x4c, 0x58, 0xcf,
    0xd0, 0xef, 0xaa, 0xfb, 0x43, 0x4d, 0x33, 0x85, 0x45, 0xf9, 0x02, 0x7f, 0x50, 0x3c, 0x9f, 0xa8,
    0x51, 0xa3, 0x40, 0x8f, 0x92, 0x9d, 0x38, 0xf5, 0xbc, 0xb6, 0xda, 0x21, 0x10, 0xff, 0xf3, 0xd2,
    0xcd, 0x0c, 0x13, 0xec, 0x5f, 0x97, 0x44, 0x17, 0xc4, 0xa7, 0x7e, 0x3d, 0x64, 0x5d, 0x19, 0x73,
    0x60, 0x81, 0x4f, 0xdc, 0x22, 0x2a, 0x90, 0x88, 0x46, 0xee, 0xb8, 0x14, 0xde, 0x5e, 0x0b, 0xdb,
    0xe0, 0x32, 0x3a, 0x0a, 0x49, 0x06, 0x24, 0x5c, 0xc2, 0xd3, 0xac, 0x62, 0x91, 0x95, 0xe4, 0x79,
    0xe7, 0xc8, 0x37, 0x6d, 0x8d, 0xd5, 0x4e, 0xa9, 0x6c, 0x56, 0xf4, 0xea, 0x65, 0x7a, 0xae, 0x08,
    0xba, 0x78, 0x25, 0x2e, 0x1c, 0xa6, 0xb4, 0xc6, 0xe8, 0xdd, 0x74, 0x1f, 0x4b, 0xbd, 0x8b, 0x8a,
    0x70, 0x3e, 0xb5, 0x66, 0x48, 0x03, 0xf6, 0x0e, 0x61, 0x35, 0x57, 0xb9, 0x86, 0xc1, 0x1d, 0x9e,
    0xe1, 0xf8, 0x98, 0x11, 0x69, 0xd9, 0x8e, 0x94, 0x9b, 0x1e, 0x87, 0xe9, 0xce, 0x55, 0x28, 0xdf,
    0x8c, 0xa1, 0x89, 0x0d, 0xbf, 0xe6, 0x42, 0x68, 0x41, 0x99, 0x2d, 0x0f, 0xb0, 0x54, 0xbb, 0x16,
];

/// The value among sixteen that `i` selects, the last for 15 and above.
spec fn pick16(
    i: u8,
    v0: u8,
    v1: u8,
    v2: u8,
    v3: u8,
    v4: u8,
    v5: u8,
    v6: u8,
    v7: u8,
    v8: u8,
    v9: u8,
    v10: u8,
    v11: u8,
    v12: u8,
    v13: u8,
    v14: u8,
    v15: u8,
) -> u8 {
    if i == 0 {
        v0
    } else     if i == 1 {
        v1
    } else     if i == 2 {
        v2
    } else     if i == 3 {
        v3
    } else     if i == 4 {
        v4
    } else     if i == 5 {
        v5
    } else     if i == 6 {
        v6
    } else     if i == 7 {
        v7
    } else     if i == 8 {
        v8
    } else     if i == 9 {
        v9
    } else     if i == 10 {
        v10
    } else     if i == 11 {
        v11
    } else     if i == 12 {
        v12
    } else     if i == 13 {
        v13
    } else     if i == 14 {
        v14
    } else {
        v15
    }
}

/// The inverses in GF(2^8), by high and low half of the byte.
spec fn inverse_table(b: u8) -> u8 {
    pick16(
        b / 16,
        pick16(b % 16, 0x00, 0x01, 0x8d, 0xf6, 0xcb, 0x52, 0x7b, 0xd1, 0xe8, 0x4f, 0x29, 0xc0, 0xb0, 0xe1, 0xe5, 0xc7),
        pick16(b % 16, 0x74, 0xb4, 0xaa, 0x4b, 0x99, 0x2b, 0x60, 0x5f, 0x58, 0x3f, 0xfd, 0xcc, 0xff, 0x40, 0xee, 0xb2),
        pick16(b % 16, 0x3a, 0x6e, 0x5a, 0xf1, 0x55, 0x4d, 0xa8, 0xc9, 0xc1, 0x0a, 0x98, 0x15, 0x30, 0x44, 0xa2, 0xc2),
        pick16(b % 16, 0x2c, 0x45, 0x92, 0x6c, 0xf3, 0x39, 0x66, 0x42, 0xf2, 0x35, 0x20, 0x6f, 0x77, 0xbb, 0x59, 0x19),
        pick16(b % 16, 0x1d, 0xfe, 0x37, 0x67, 0x2d, 0x31, 0xf5, 0x69, 0xa7, 0x64, 0xab, 0x13, 0x54, 0x25, 0xe9, 0x09),
        pick16(b % 16, 0xed, 0x5c, 0x05, 0xca, 0x4c, 0x24, 0x87, 0xbf, 0x18, 0x3e, 0x22, 0xf0, 0x51, 0xec, 0x61, 0x17),
        pick16(b % 16, 0x16, 0x5e, 0xaf, 0xd3, 0x49, 0xa6, 0x36, 0x43, 0xf4, 0x47, 0x91, 0xdf, 0x33, 0x93, 0x21, 0x3b),
        pick16(b % 16, 0x79, 0xb7, 0x97, 0x85, 0x10, 0xb5, 0xba, 0x3c, 0xb6, 0x70, 0xd0, 0x06, 0xa1, 0xfa, 0x81, 0x82),
        pick16(b % 16, 0x83, 0x7e, 0x7f, 0x80, 0x96, 0x73, 0xbe, 0x56, 0x9b, 0x9e, 0x95, 0xd9, 0xf7, 0x02, 0xb9, 0xa4),
        pick16(b % 16, 0xde, 0x6a, 0x32, 0x6d, 0xd8, 0x8a, 0x84, 0x72, 0x2a, 0x14, 0x9f, 0x88, 0xf9, 0xdc, 0x89, 0x9a),
        pick16(b % 16, 0xfb, 0x7c, 0x2e, 0xc3, 0x8f, 0xb8, 0x65, 0x48, 0x26, 0xc8, 0x12, 0x4a, 0xce, 0xe7, 0xd2, 0x62),
        pick16(b % 16, 0x0c, 0xe0, 0x1f, 0xef, 0x11, 0x75, 0x78, 0x71, 0xa5, 0x8e, 0x76, 0x3d, 0xbd, 0xbc, 0x86, 0x57),
        pick16(b % 16, 0x0b, 0x28, 0x2f, 0xa3, 0xda, 0xd4, 0xe4, 0x0f, 0xa9, 0x27, 0x53, 0x04, 0x1b, 0xfc, 0xac, 0xe6),
        pick16(b % 16, 0x7a, 0x07, 0xae, 0x63, 0xc5, 0xdb, 0xe2, 0xea, 0x94, 0x8b, 0xc4, 0xd5, 0x9d, 0xf8, 0x90, 0x6b),
        pick16(b % 16, 0xb1, 0x0d, 0xd6, 0xeb, 0xc6, 0x0e, 0xcf, 0xad, 0x08, 0x4e, 0xd7, 0xe3, 0x5d, 0x50, 0x1e, 0xb3),
        pick16(b % 16, 0x5b, 0x23, 0x38, 0x34, 0x68, 0x46, 0x03, 0x8c, 0xdd, 0x9c, 0x7d, 0xa0, 0xcd, 0x1a, 0x41, 0x1c),
    )
}

/// The substitution box, by high and low half of the byte.
spec fn sbox_table(b: u8) -> u8 {
    pick16(
        b / 16,
        pick16(b % 16, 0x63, 0x7c, 0x77, 0x7b, 0xf2, 0x6b, 0x6f, 0xc5, 0x30, 0x01, 0x67, 0x2b, 0xfe, 0xd7, 0xab, 0x76),
        pick16(b % 16, 0xca, 0x82, 0xc9, 0x7d, 0xfa, 0x59, 0x47, 0xf0, 0xad, 0xd4, 0xa2, 0xaf, 0x9c, 0xa4, 0x72, 0xc0),
        pick16(b % 16, 0xb7, 0xfd, 0x93, 0x26, 0x36, 0x3f, 0xf7, 0xcc, 0x34, 0xa5, 0xe5, 0xf1, 0x71, 0xd8, 0x31, 0x15),
        pick16(b % 16, 0x04, 0xc7, 0x23, 0xc3, 0x18, 0x96, 0x05, 0x9a, 0x07, 0x12, 0x80, 0xe2, 0xeb, 0x27, 0xb2, 0x75),
        pick16(b % 16, 0x09, 0x83, 0x2c, 0x1a, 0x1b, 0x6e, 0x5a, 0xa0, 0x52, 0x3b, 0xd6, 0xb3, 0x29, 0xe3, 0x2f, 0x84),
        pick16(b % 16, 0x53, 0xd1, 0x00, 0xed, 0x20, 0xfc, 0xb1, 0x5b, 0x6a, 0xcb, 0xbe, 0x39, 0x4a, 0x4c, 0x58, 0xcf),
        pick16(b % 16, 0xd0, 0xef, 0xaa, 0xfb, 0x43, 0x4d, 0x33, 0x85, 0x45, 0xf9, 0x02, 0x7f, 0x50, 0x3c, 0x9f, 0xa8),
        pick16(b % 16, 0x51, 0xa3, 0x40, 0x8f, 0x92, 0x9d, 0x38, 0xf5, 0xbc, 0xb6, 0xda, 0x21, 0x10, 0xff, 0xf3, 0xd2),
        pick16(b % 16, 0xcd, 0x0c, 0x13, 0xec, 0x5f, 0x97, 0x44, 0x17, 0xc4, 0xa7, 0x7e, 0x3d, 0x64, 0x5d, 0x19, 0x73),
        pick16(b % 16, 0x60, 0x81, 0x4f, 0xdc, 0x22, 0x2a, 0x90, 0x88, 0x46, 0xee, 0xb8, 0x14, 0xde, 0x5e, 0x0b, 0xdb),
        pick16(b % 16, 0xe0, 0x32, 0x3a, 0x0a, 0x49, 0x06, 0x24, 0x5c, 0xc2, 0xd3, 0xac, 0x62, 0x91, 0x95, 0xe4, 0x79),
        pick16(b % 16, 0xe7, 0xc8, 0x37, 0x6d, 0x8d, 0xd5, 0x4e, 0xa9, 0x6c, 0x56, 0xf4, 0xea, 0x65, 0x7a, 0xae, 0x08),
        pick16(b % 16, 0xba, 0x78, 0x25, 0x2e, 0x1c, 0xa6, 0xb4, 0xc6, 0xe8, 0xdd, 0x74, 0x1f, 0x4b, 0xbd, 0x8b, 0x8a),
        pick16(b % 16, 0x70, 0x3e, 0xb5, 0x66, 0x48, 0x03, 0xf6, 0x0e, 0x61, 0x35, 0x57, 0xb9, 0x86, 0xc1, 0x1d, 0x9e),
        pick16(b % 16, 0xe1, 0xf8, 0x98, 0x11, 0x69, 0xd9, 0x8e, 0x94, 0x9b, 0x1e, 0x87, 0xe9, 0xce, 0x55, 0x28, 0xdf),
        pick16(b % 16, 0x8c, 0xa1, 0x89, 0x0d, 0xbf, 0xe6, 0x42, 0x68, 0x41, 0x99, 0x2d, 0x0f, 0xb0, 0x54, 0xbb, 0x16),
    )
}

/// The byte that each byte is the substitution of, by high and low half.
spec fn preimage_table(b: u8) -> u8 {
    pick16(
        b / 16,
        pick16(b % 16, 0x52, 0x09, 0x6a, 0xd5, 0x30, 0x36, 0xa5, 0x38, 0xbf, 0x40, 0xa3, 0x9e, 0x81, 0xf3, 0xd7, 0xfb),
        pick16(b % 16, 0x7c, 0xe3, 0x39, 0x82, 0x9b, 0x2f, 0xff, 0x87, 0x34, 0x8e, 0x43, 0x44, 0xc4, 0xde, 0xe9, 0xcb),
        pick16(b % 16, 0x54, 0x7b, 0x94, 0x32, 0xa6, 0xc2, 0x23, 0x3d, 0xee, 0x4c, 0x95, 0x0b, 0x42, 0xfa, 0xc3, 0x4e),
        pick16(b % 16, 0x08, 0x2e, 0xa1, 0x66, 0x28, 0xd9, 0x24, 0xb2, 0x76, 0x5b, 0xa2, 0x49, 0x6d, 0x8b, 0xd1, 0x25),
        pick16(b % 16, 0x72, 0xf8, 0xf6, 0x64, 0x86, 0x68, 0x98, 0x16, 0xd4, 0xa4, 0x5c, 0xcc, 0x5d, 0x65, 0xb6, 0x92),
        pick16(b % 16, 0x6c, 0x70, 0x48, 0x50, 0xfd, 0xed, 0xb9, 0xda, 0x5e, 0x15, 0x46, 0x57, 0xa7, 0x8d, 0x9d, 0x84),
        pick16(b % 16, 0x90, 0xd8, 0xab, 0x00, 0x8c, 0xbc, 0xd3, 0x0a, 0xf7, 0xe4, 0x58, 0x05, 0xb8, 0xb3, 0x45, 0x06),
        pick16(b % 16, 0xd0, 0x2c, 0x1e, 0x8f, 0xca, 0x3f, 0x0f, 0x02, 0xc1, 0xaf, 0xbd, 0x03, 0x01, 0x13, 0x8a, 0x6b),
        pick16(b % 16, 0x3a, 0x91, 0x11, 0x41, 0x4f, 0x67, 0xdc, 0xea, 0x97, 0xf2, 0xcf, 0xce, 0xf0, 0xb4, 0xe6, 0x73),
        pick16(b % 16, 0x96, 0xac, 0x74, 0x22, 0xe7, 0xad, 0x35, 0x85, 0xe2, 0xf9, 0x37, 0xe8, 0x1c, 0x75, 0xdf, 0x6e),
        pick16(b % 16, 0x47, 0xf1, 0x1a, 0x71, 0x1d, 0x29, 0xc5, 0x89, 0x6f, 0xb7, 0x62, 0x0e, 0xaa, 0x18, 0xbe, 0x1b),
        pick16(b % 16, 0xfc, 0x56, 0x3e, 0x4b, 0xc6, 0xd2, 0x79, 0x20, 0x9a, 0xdb, 0xc0, 0xfe, 0x78, 0xcd, 0x5a, 0xf4),
        pick16(b % 16, 0x1f, 0xdd, 0xa8, 0x33, 0x88, 0x07, 0xc7, 0x31, 0xb1, 0x12, 0x10, 0x59, 0x27, 0x80, 0xec, 0x5f),
        pick16(b % 16, 0x60, 0x51, 0x7f, 0xa9, 0x19, 0xb5, 0x4a, 0x0d, 0x2d, 0xe5, 0x7a, 0x9f, 0x93, 0xc9, 0x9c, 0xef),
        pick16(b % 16, 0xa0, 0xe0, 0x3b, 0x4d, 0xae, 0x2a, 0xf5, 0xb0, 0xc8, 0xeb, 0xbb, 0x3c, 0x83, 0x53, 0x99, 0x61),
        pick16(b % 16, 0x17, 0x2b, 0x04, 0x7e, 0xba, 0x77, 0xd6, 0x26, 0xe1, 0x69, 0x14, 0x63, 0x55, 0x21, 0x0c, 0x7d),
    )
}

proof fn lemma_inverse_table_inverts(a: u8)
    by (bit_vector)
    requires
        a != 0,
    ensures
        gf_mul(a, inverse_table(a)) == 1,
{
}

proof fn lemma_inverse_is_in_table(a: u8, x: u8)
    by (bit_vector)
    requires
        gf_mul(a, x) == 1,
    ensures
        x == inverse_table(a),
{
}

proof fn lemma_zero_in_inverse_table()
    by (bit_vector)
    ensures
        inverse_table(0) == 0,
{
}

#[verifier::rlimit(40)]
proof fn lemma_affine_of_inverse_table(b: u8)
    by (bit_vector)
    ensures
        affine(inverse_table(b)) == sbox_table(b),
{
}

/// Every byte but zero has exactly one inverse in the field: its product with
/// `gf_inv` is one, and no other byte gives one.
pub proof fn lemma_gf_inv_is_inverse(a: u8)
    requires
        a != 0,
    ensures
        gf_mul(a, gf_inv(a)) == 1,
        forall|x: u8| gf_mul(a, x) == 1 ==> x == gf_inv(a),
{
    lemma_inverse_table_inverts(a);
    lemma_inverse_is_in_table(a, gf_inv(a));
    assert forall|x: u8| gf_mul(a, x) == 1 implies x == gf_inv(a) by {
        lemma_inverse_is_in_table(a, x);
    }
}

#[verifier::rlimit(40)]
proof fn lemma_table_injective(a: u8, b: u8)
    by (bit_vector)
    requires
        sbox_table(a) == sbox_table(b),
    ensures
        a == b,
{
}

proof fn lemma_sbox_is_in_table(b: u8)
    ensures
        sbox(b) == sbox_table(b),
{
    if b == 0 {
        lemma_zero_in_inverse_table();
    } else {
        lemma_gf_inv_is_inverse(b);
        lemma_inverse_is_in_table(b, gf_inv(b));
    }
    lemma_affine_of_inverse_table(b);
}

/// Each entry of the table is the substitution of its index.
pub proof fn lemma_sbox_table(b: u8)
    ensures
        SBOX[b as int] == sbox(b),
{
    lemma_sbox_is_in_table(b);
}

#[verifier::rlimit(40)]
proof fn lemma_table_of_preimage(b: u8)
    by (bit_vector)
    ensures
        sbox_table(preimage_table(b)) == b,
{
}

/// Every byte is the substitution of a byte.
pub proof fn lemma_sbox_onto(b: u8)
    ensures
        exists|a: u8| sbox(a) == b,
{
    lemma_table_of_preimage(b);
    lemma_sbox_is_in_table(preimage_table(b));
}

/// No two bytes have the same substitution.
pub proof fn lemma_sbox_injective(a: u8, b: u8)
    requires
        sbox(a) == sbox(b),
    ensures
        a == b,
{
    lemma_sbox_is_in_table(a);
    lemma_sbox_is_in_table(b);
    lemma_table_injective(a, b);
}

/// Substitutes one byte.
pub fn sub_byte(b: u8) -> (r: u8)
    ensures
        r == sbox(b),
{
    proof {
        lemma_sbox_table(b);
    }
    SBOX[b as usize]
}

/// Substitutes every byte of a matrix.
pub fn substitute<const M: usize, const N: usize>(block: ByteMatrix<M, N>) -> (r: ByteMatrix<M, N>)
    ensures
        r@ == sub_bytes(block@),
{
    let r = block.map(sub_byte);
    assert(r@ =~~= sub_bytes(block@));
    r
}

} // verus!
