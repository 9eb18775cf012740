//! The AES block cipher, in the direction of encryption.
//!
//! A key of 16, 24 or 32 bytes is expanded into round keys, and data that
//! consists of whole blocks of 16 bytes is taken through the rounds of the
//! cipher block by block. Each block is encrypted by itself.
//!
//! What every function computes is stated over sequences of bytes:
//! `block_cipher::ciphertext` is the encryption of a plaintext under a key,
//! and is built from the round functions of `encoding`, the key expansion of
//! `key`, the substitution of `sbox` and the field arithmetic of `gf`.
use vstd::prelude::*;

pub mod block_cipher;
pub mod encoding;
pub mod error;
pub mod gf;
pub mod key;
pub mod matrix;
pub mod sbox;

use crate::matrix::ByteMatrix;

verus! {

pub const BLOCK_LEN_BIT: usize = 128;

pub const BLOCK_LEN_BYTE: usize = BLOCK_LEN_BIT / 8;

/// The state of the cipher: four rows of four bytes.
pub type Block = ByteMatrix<4, 4>;

/// Elementwise XOR of two byte sequences, over the length of the first.
pub open spec fn xor_seq(a: Seq<u8>, b: Seq<u8>) -> Seq<u8> {
    Seq::new(a.len(), |i: int| a[i] ^ b[i])
}

/// XORs two byte arrays of the same length, position by position.
pub fn xor<const L: usize>(a: [u8; L], b: [u8; L]) -> (r: [u8; L])
    ensures
        r@ == xor_seq(a@, b@),
{
    let mut r = [0u8; L];
    let mut i: usize = 0;
    while i < L
        invariant
            i <= L,
            forall|k: int| 0 <= k < i ==> r[k] == a[k] ^ b[k],
        decreases L - i,
    {
        r[i] = a[i] ^ b[i];
        i += 1;
    }
    r
}

} // verus!
