//! Encryption of data under a key: each block of 16 bytes by itself, with
//! the round keys that the key expands to.
use crate::encoding::{encrypt_blocks, schedule_view, Encoder};
use crate::error::{ConfigurationError, EncryptError, InputError};
use crate::key::{key_schedule, supported_key_len, Key};
use crate::Block;
use vstd::prelude::*;

verus! {

/// The encryption of `plaintext`, which consists of whole blocks of 16
/// bytes, under `key`, which has 16, 24 or 32 bytes.
pub open spec fn ciphertext(plaintext: Seq<u8>, key: Seq<u8>) -> Seq<u8>
    recommends
        plaintext.len() % 16 == 0,
        supported_key_len(key.len()),
{
    encrypt_blocks(plaintext, key_schedule(key))
}

/// The bytes of a slice of known length, as an array.
fn to_array<const L: usize>(bytes: &[u8]) -> (r: [u8; L])
    requires
        bytes@.len() == L,
    ensures
        r@ == bytes@,
{
    let mut r = [0u8; L];
    let mut i: usize = 0;
    while i < L
        invariant
            i <= L,
            bytes@.len() == L,
            forall|k: int| 0 <= k < i ==> r[k] == bytes@[k],
        decreases L - i,
    {
        r[i] = bytes[i];
        i += 1;
    }
    assert(r@ =~= bytes@);
    r
}

/// The round keys of a key of `L` bytes.
fn expand_key<const L: usize>(key: &[u8]) -> (r: Result<Vec<Block>, ConfigurationError>)
    requires
        key@.len() == L,
    ensures
        supported_key_len(L as nat) ==> r is Ok && schedule_view(r->Ok_0@) == key_schedule(key@),
        !supported_key_len(L as nat) ==> r is Err && r->Err_0
            == ConfigurationError::UnsupportedKeyLength,
{
    match Key::<L>::new(to_array(key)) {
        Ok(k) => {
            let round_keys = k.expand();
            assert(schedule_view(round_keys@) =~~= key_schedule(key@));
            Ok(round_keys)
        },
        Err(e) => Err(e),
    }
}

/// Encrypts `plaintext` under `key`. A key that is not 16, 24 or 32 bytes long
/// is refused first, then a plaintext that does not consist of whole blocks of
/// 16 bytes; nothing is encrypted then.
pub fn encrypt(plaintext: &[u8], key: &[u8]) -> (r: Result<Vec<u8>, EncryptError>)
    ensures
        !supported_key_len(key@.len()) ==> r is Err && r->Err_0 == EncryptError::Configuration(
            ConfigurationError::UnsupportedKeyLength,
        ),
        supported_key_len(key@.len()) && plaintext@.len() % 16 != 0 ==> r is Err && r->Err_0
            == EncryptError::Input(InputError::InvalidBlockLength),
        supported_key_len(key@.len()) && plaintext@.len() % 16 == 0 ==> r is Ok && r->Ok_0@
            == ciphertext(plaintext@, key@),
{
    let expanded = if key.len() == 16 {
        expand_key::<16>(key)
    } else if key.len() == 24 {
        expand_key::<24>(key)
    } else if key.len() == 32 {
        expand_key::<32>(key)
    } else {
        Err(ConfigurationError::UnsupportedKeyLength)
    };
    let round_keys = match expanded {
        Ok(round_keys) => round_keys,
        Err(e) => {
            return Err(EncryptError::Configuration(e));
        },
    };
    match Encoder::new(plaintext) {
        Ok(encoder) => {
            assert(schedule_view(round_keys@).len() == key_schedule(key@).len());
            let out = encoder.encode(&round_keys);
            assert(plaintext@.skip(0) =~= plaintext@);
            assert(out@ =~= ciphertext(plaintext@, key@));
            Ok(out)
        },
        Err(e) => Err(EncryptError::Input(e)),
    }
}

/// The encryption of blocks is that of each block by itself: where whole
/// blocks are put after whole blocks, their encryption comes after that of
/// the first, and neither changes.
pub proof fn lemma_encrypt_blocks_concat(a: Seq<u8>, b: Seq<u8>, round_keys: Seq<Seq<Seq<u8>>>)
    requires
        a.len() % 16 == 0,
        b.len() % 16 == 0,
    ensures
        encrypt_blocks(a + b, round_keys) == encrypt_blocks(a, round_keys) + encrypt_blocks(
            b,
            round_keys,
        ),
{
    let whole = encrypt_blocks(a + b, round_keys);
    let parts = encrypt_blocks(a, round_keys) + encrypt_blocks(b, round_keys);
    assert(whole.len() == parts.len());
    assert forall|i: int| 0 <= i < whole.len() implies whole[i] == parts[i] by {
        lemma_block_of_concat(a, b, i);
    }
    assert(whole =~= parts);
}

/// The block that byte `i` of `a + b` stands in is a block of `a` or a block
/// of `b`, at the same place in the block, where both consist of whole
/// blocks.
proof fn lemma_block_of_concat(a: Seq<u8>, b: Seq<u8>, i: int)
    requires
        a.len() % 16 == 0,
        b.len() % 16 == 0,
        0 <= i < a.len() + b.len(),
    ensures
        i < a.len() ==> (a + b).subrange(16 * (i / 16), 16 * (i / 16) + 16) == a.subrange(
            16 * (i / 16),
            16 * (i / 16) + 16,
        ),
        i >= a.len() ==> (a + b).subrange(16 * (i / 16), 16 * (i / 16) + 16) == b.subrange(
            16 * ((i - a.len()) / 16),
            16 * ((i - a.len()) / 16) + 16,
        ) && (i - a.len()) % 16 == i % 16,
{
    let start = 16 * (i / 16);
    if i < a.len() {
        assert(start + 16 <= a.len());
        assert((a + b).subrange(start, start + 16) =~= a.subrange(start, start + 16));
    } else {
        let j = i - a.len();
        let shifted = 16 * (j / 16);
        assert(shifted == start - a.len() && j % 16 == i % 16);
        assert(shifted + 16 <= b.len());
        assert((a + b).subrange(start, start + 16) =~= b.subrange(shifted, shifted + 16));
    }
}

/// Encrypting two runs of whole blocks one after the other, under one key,
/// gives the two encryptions one after the other: there is no chaining.
pub proof fn lemma_ciphertext_concat(a: Seq<u8>, b: Seq<u8>, key: Seq<u8>)
    requires
        a.len() % 16 == 0,
        b.len() % 16 == 0,
    ensures
        ciphertext(a + b, key) == ciphertext(a, key) + ciphertext(b, key),
{
    lemma_encrypt_blocks_concat(a, b, key_schedule(key));
}

} // verus!
