//! The key and its expansion into round keys.
use crate::error::ConfigurationError;
use crate::matrix::flatten;
use crate::sbox::{sbox, sub_byte};
use crate::{xor, xor_seq, Block};
use vstd::prelude::*;

pub mod schedule;

use schedule::{rcon_spec, rot_word_spec};

verus! {

pub const WORD_LEN_BIT: usize = 32;

pub const WORD_LEN_BYTE: usize = WORD_LEN_BIT / 8;

/// Four bytes: the unit of the key schedule.
pub type Word = [u8; WORD_LEN_BYTE];

/// Whether a key may have this many bytes.
pub open spec fn supported_key_len(len: nat) -> bool {
    len == 16 || len == 24 || len == 32
}

/// The number of words in a key of `len` bytes.
pub open spec fn key_words(len: nat) -> nat {
    len / 4
}

/// The number of rounds for a key of `len` bytes: 10, 12 and 14 for 16, 24
/// and 32 bytes.
pub open spec fn key_rounds(len: nat) -> nat {
    len / 4 + 6
}

/// The substitution of each byte of a word.
pub open spec fn sub_word_spec(w: Seq<u8>) -> Seq<u8>
    recommends
        w.len() == 4,
{
    seq![sbox(w[0]), sbox(w[1]), sbox(w[2]), sbox(w[3])]
}

/// Word `i` of the expansion of `key`. The first words are the key itself.
/// Each later word is the word one key length before it, XORed with a word made
/// from its predecessor: where `i` is a multiple of the key's length in
/// words, the predecessor rotated, substituted and XORed with the round
/// constant of that multiple; for keys of more than six words, four words
/// after such a place, the predecessor substituted; and else the
/// predecessor as it is.
pub open spec fn schedule_word(key: Seq<u8>, i: nat) -> Seq<u8>
    recommends
        supported_key_len(key.len()),
    decreases i,
{
    let nk = key_words(key.len());
    if nk == 0 || i < nk {
        key.subrange(4 * (i as int), 4 * (i as int) + 4)
    } else if i % nk == 0 {
        xor_seq(
            schedule_word(key, (i - nk) as nat),
            xor_seq(
                sub_word_spec(rot_word_spec(schedule_word(key, (i - 1) as nat))),
                rcon_spec(i / nk),
            ),
        )
    } else if nk > 6 && i % nk == 4 {
        xor_seq(
            schedule_word(key, (i - nk) as nat),
            sub_word_spec(schedule_word(key, (i - 1) as nat)),
        )
    } else {
        xor_seq(schedule_word(key, (i - nk) as nat), schedule_word(key, (i - 1) as nat))
    }
}

/// Round key `k` of `key`, one word of the expansion in each row.
pub open spec fn round_key(key: Seq<u8>, k: nat) -> Seq<Seq<u8>> {
    Seq::new(4, |i: int| schedule_word(key, (4 * k + i) as nat))
}

/// The round keys of `key`, in the order of the rounds that use them: one for
/// each round, and before them the one that is added to the plaintext.
pub open spec fn key_schedule(key: Seq<u8>) -> Seq<Seq<Seq<u8>>> {
    Seq::new(key_rounds(key.len()) + 1, |k: int| round_key(key, k as nat))
}

/// A key of 16, 24 or 32 bytes has 11, 13 or 15 round keys, and the first of
/// them holds the first 16 bytes of the key, in their order.
pub proof fn lemma_key_schedule_starts_with_key(key: Seq<u8>)
    requires
        supported_key_len(key.len()),
    ensures
        key.len() == 16 ==> key_schedule(key).len() == 11,
        key.len() == 24 ==> key_schedule(key).len() == 13,
        key.len() == 32 ==> key_schedule(key).len() == 15,
        flatten(key_schedule(key)[0], 4) == key.subrange(0, 16),
{
    let first = key_schedule(key)[0];
    assert forall|k: int| 0 <= k < 16 implies flatten(first, 4)[k] == key[k] by {
        assert(first[k / 4] == schedule_word(key, (k / 4) as nat));
    }
    assert(flatten(first, 4) =~= key.subrange(0, 16));
}

/// A key of 16, 24 or 32 bytes.
pub struct Key<const L: usize> {
    inner: [u8; L],
    n_rounds: usize,
    n_words: usize,
}

impl<const L: usize> View for Key<L> {
    type V = Seq<u8>;

    closed spec fn view(&self) -> Seq<u8> {
        self.inner@
    }
}

/// Substitutes each byte of a word.
pub fn sub_word(w: Word) -> (r: Word)
    ensures
        r@ == sub_word_spec(w@),
{
    let r: Word = [sub_byte(w[0]), sub_byte(w[1]), sub_byte(w[2]), sub_byte(w[3])];
    r
}

impl<const L: usize> Key<L> {
    #[verifier::type_invariant]
    spec fn well_formed(self) -> bool {
        &&& supported_key_len(L as nat)
        &&& self.n_words == key_words(L as nat)
        &&& self.n_rounds == key_rounds(L as nat)
    }

    /// The key of these bytes, if there are 16, 24 or 32 of them.
    pub fn new(key: [u8; L]) -> (r: Result<Self, ConfigurationError>)
        ensures
            supported_key_len(L as nat) ==> r is Ok && r->Ok_0@ == key@,
            !supported_key_len(L as nat) ==> r == Err::<Self, ConfigurationError>(
                ConfigurationError::UnsupportedKeyLength,
            ),
    {
        let n_rounds: usize = if L == 16 {
            10
        } else if L == 24 {
            12
        } else if L == 32 {
            14
        } else {
            return Err(ConfigurationError::UnsupportedKeyLength);
        };
        Ok(Self { inner: key, n_rounds, n_words: L / WORD_LEN_BYTE })
    }

    /// The number of rounds that this key asks for.
    pub fn n_rounds(&self) -> (n: usize)
        ensures
            n == key_rounds(L as nat),
            supported_key_len(L as nat),
    {
        proof {
            use_type_invariant(self);
        }
        self.n_rounds
    }

    /// The number of words that this key consists of.
    pub fn n_words(&self) -> (n: usize)
        ensures
            n == key_words(L as nat),
            supported_key_len(L as nat),
    {
        proof {
            use_type_invariant(self);
        }
        self.n_words
    }

    /// The round keys, in the order of the rounds that use them, each with one
    /// word of the expansion in each row.
    pub fn expand(self) -> (round_keys: Vec<Block>)
        ensures
            supported_key_len(L as nat),
            round_keys@.len() == key_rounds(L as nat) + 1,
            forall|k: int|
                0 <= k < round_keys@.len() ==> (#[trigger] round_keys@[k])@ == round_key(
                    self@,
                    k as nat,
                ),
    {
        proof {
            use_type_invariant(&self);
        }
        let nk: usize = self.n_words;
        let total: usize = 4 * (self.n_rounds + 1);
        let mut words: Vec<Word> = Vec::with_capacity(total);
        let mut i: usize = 0;
        while i < total
            invariant
                supported_key_len(L as nat),
                nk == key_words(L as nat),
                total == 4 * (key_rounds(L as nat) + 1),
                i <= total,
                words@.len() == i,
                self.inner@.len() == L,
                forall|j: int| 0 <= j < i ==> (#[trigger] words@[j])@ == schedule_word(self@, j as nat),
            decreases total - i,
        {
            let word: Word = if i < nk {
                let w: Word = [
                    self.inner[4 * i],
                    self.inner[4 * i + 1],
                    self.inner[4 * i + 2],
                    self.inner[4 * i + 3],
                ];
                w
            } else if i % nk == 0 {
                assert(i / nk >= 1) by (nonlinear_arith)
                    requires
                        i >= nk,
                        nk > 0,
                ;
                let constant: Word = schedule::rcon(i / nk).unwrap();
                xor(words[i - nk], xor(sub_word(schedule::rot_word(words[i - 1])), constant))
            } else if nk > 6 && i % nk == 4 {
                xor(words[i - nk], sub_word(words[i - 1]))
            } else {
                xor(words[i - nk], words[i - 1])
            };
            words.push(word);
            i += 1;
        }
        let mut round_keys: Vec<Block> = Vec::with_capacity(self.n_rounds + 1);
        let mut k: usize = 0;
        while k <= self.n_rounds
            invariant
                self.n_rounds == key_rounds(L as nat),
                supported_key_len(L as nat),
                k <= self.n_rounds + 1,
                words@.len() == 4 * (self.n_rounds + 1),
                round_keys@.len() == k,
                forall|j: int|
                    0 <= j < words@.len() ==> (#[trigger] words@[j])@ == schedule_word(
                        self@,
                        j as nat,
                    ),
                forall|j: int|
                    0 <= j < k ==> (#[trigger] round_keys@[j])@ == round_key(self@, j as nat),
            decreases self.n_rounds + 1 - k,
        {
            let block = Block::from(
                [words[4 * k], words[4 * k + 1], words[4 * k + 2], words[4 * k + 3]],
            );
            round_keys.push(block);
            k += 1;
        }
        round_keys
    }
}

} // verus!
