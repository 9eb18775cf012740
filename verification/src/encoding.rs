//! The rounds of the cipher, and the encoder that takes data through them
//! block by block.
//!
//! The state is a matrix of four rows; byte `r + 4 * c` of a block stands in
//! row `r` and column `c`. A round key comes from the key schedule with one
//! word in each row, so it is transposed before it is added to the state.
use crate::error::InputError;
use crate::gf::{gf_mul, multiply};
use crate::key::schedule::rot_word;
use crate::matrix::{
    column, dot, lemma_dot_fold_is_dot, rows_view, transpose, xor_rows, ByteMatrix,
};
use crate::sbox::{sub_bytes, substitute};
use crate::Block;
use vstd::prelude::*;
use vstd::slice::slice_subrange;

verus! {

/// The state that a block of 16 bytes is loaded into.
pub open spec fn state_of(block: Seq<u8>) -> Seq<Seq<u8>>
    recommends
        block.len() == 16,
{
    Seq::new(4, |r: int| Seq::new(4, |c: int| block[r + 4 * c]))
}

/// The 16 bytes that a state is written out as.
pub open spec fn bytes_of(state: Seq<Seq<u8>>) -> Seq<u8> {
    Seq::new(16, |i: int| state[i % 4][i / 4])
}

/// The state with row `r` rotated to the left by `r` places.
pub open spec fn shift_rows_spec(state: Seq<Seq<u8>>) -> Seq<Seq<u8>> {
    Seq::new(4, |r: int| Seq::new(4, |c: int| state[r][(c + r) % 4]))
}

/// The matrix that the columns of the state are multiplied by.
pub open spec fn mix_matrix() -> Seq<Seq<u8>> {
    seq![
        seq![2u8, 3u8, 1u8, 1u8],
        seq![1u8, 2u8, 3u8, 1u8],
        seq![1u8, 1u8, 2u8, 3u8],
        seq![3u8, 1u8, 1u8, 2u8],
    ]
}

/// The state with each column multiplied by `mix_matrix` in GF(2^8): products
/// are those of the field, and their sum is the XOR.
pub open spec fn mix_columns_spec(state: Seq<Seq<u8>>) -> Seq<Seq<u8>> {
    Seq::new(
        4,
        |r: int|
            Seq::new(
                4,
                |c: int|
                    gf_mul(mix_matrix()[r][0], state[0][c]) ^ gf_mul(mix_matrix()[r][1], state[1][c])
                        ^ gf_mul(mix_matrix()[r][2], state[2][c]) ^ gf_mul(
                        mix_matrix()[r][3],
                        state[3][c],
                    ),
            ),
    )
}

/// The state XORed with a round key, word `c` of the key onto column `c`.
pub open spec fn add_round_key_spec(state: Seq<Seq<u8>>, round_key: Seq<Seq<u8>>) -> Seq<Seq<u8>> {
    xor_rows(state, transpose(round_key, 4))
}

/// The state after the first key was added and `r` full rounds were made:
/// each substitutes the bytes, shifts the rows, mixes the columns and adds
/// the round's key.
pub open spec fn rounds(state: Seq<Seq<u8>>, round_keys: Seq<Seq<Seq<u8>>>, r: nat) -> Seq<Seq<u8>>
    decreases r,
{
    if r == 0 {
        add_round_key_spec(state, round_keys[0])
    } else {
        add_round_key_spec(
            mix_columns_spec(
                shift_rows_spec(sub_bytes(rounds(state, round_keys, (r - 1) as nat))),
            ),
            round_keys[r as int],
        )
    }
}

/// The state after all rounds: the first key is added, every key but the
/// first and the last gets a full round, and the last round, with the last
/// key, leaves the mixing of the columns out.
pub open spec fn cipher(state: Seq<Seq<u8>>, round_keys: Seq<Seq<Seq<u8>>>) -> Seq<Seq<u8>>
    recommends
        round_keys.len() >= 2,
{
    add_round_key_spec(
        shift_rows_spec(sub_bytes(rounds(state, round_keys, (round_keys.len() - 2) as nat))),
        round_keys[round_keys.len() - 1],
    )
}

/// The encryption of one block of 16 bytes.
pub open spec fn encrypt_block(block: Seq<u8>, round_keys: Seq<Seq<Seq<u8>>>) -> Seq<u8>
    recommends
        block.len() == 16,
        round_keys.len() >= 2,
{
    bytes_of(cipher(state_of(block), round_keys))
}

/// The encryption of whole blocks: byte `i` of the result is byte `i % 16` of
/// the encryption of the block that byte `i` of the data stands in. No block
/// has a part in the encryption of another.
pub open spec fn encrypt_blocks(data: Seq<u8>, round_keys: Seq<Seq<Seq<u8>>>) -> Seq<u8>
    recommends
        data.len() % 16 == 0,
        round_keys.len() >= 2,
{
    Seq::new(
        data.len(),
        |i: int| encrypt_block(data.subrange(16 * (i / 16), 16 * (i / 16) + 16), round_keys)[i % 16],
    )
}

/// The round keys of a vector of blocks, each by its view.
pub open spec fn schedule_view(round_keys: Seq<Block>) -> Seq<Seq<Seq<u8>>> {
    Seq::new(round_keys.len(), |k: int| round_keys[k]@)
}

/// Rotates row `r` of the state to the left by `r` places, in place.
pub fn shift_rows(block: &mut Block)
    ensures
        final(block)@ == shift_rows_spec(old(block)@),
{
    let rows = block.rows_mut();
    rows[1] = rot_word(rows[1]);
    rows[2] = rot_word(rot_word(rows[2]));
    rows[3] = rot_word(rot_word(rot_word(rows[3])));
    assert(rows_view(*rows) =~~= shift_rows_spec(old(block)@));
}

/// Multiplies each column of the state by the mixing matrix, in place.
pub fn mix_columns(block: &mut Block)
    ensures
        final(block)@ == mix_columns_spec(old(block)@),
{
    let mix: Block = ByteMatrix::from([[2, 3, 1, 1], [1, 2, 3, 1], [1, 1, 2, 3], [3, 1, 1, 2]]);
    let times = |pair: (u8, u8)| -> (r: u8)
        ensures
            r == gf_mul(pair.0, pair.1),
        { multiply(pair.0, pair.1) };
    let plus = |a: u8, b: u8| -> (r: u8)
        ensures
            r == a ^ b,
        { a ^ b };
    let mixed: Block = mix.mul(*block, times, plus);
    proof {
        let state = old(block)@;
        let gf = |a: u8, b: u8| gf_mul(a, b);
        let sum = |a: u8, b: u8| a ^ b;
        assert forall|x: u8| #[trigger] (0u8 ^ x) == x by {
            assert(0u8 ^ x == x) by (bit_vector);
        }
        assert forall|r: int, c: int| 0 <= r < 4 && 0 <= c < 4 implies mixed@[r][c]
            == mix_columns_spec(state)[r][c] by {
            let col = column(state, c);
            lemma_dot_fold_is_dot(times, plus, gf, sum, mix@[r], col, 4, mixed@[r][c]);
            reveal_with_fuel(dot, 5);
        }
        assert(mixed@ =~~= mix_columns_spec(state));
    }
    *block = mixed;
}

/// Adds a round key, as the key schedule gives it, to the state.
pub fn add_round_key(block: &mut Block, round_key: &Block)
    ensures
        final(block)@ == add_round_key_spec(old(block)@, round_key@),
{
    *block = block.xor(round_key.transposed());
}

/// Takes a state through all rounds.
pub fn encode_state(state: Block, round_keys: &Vec<Block>) -> (r: Block)
    requires
        round_keys@.len() >= 2,
    ensures
        r@ == cipher(state@, schedule_view(round_keys@)),
{
    let ghost keys = schedule_view(round_keys@);
    let last: usize = round_keys.len() - 1;
    let mut block: Block = state;
    add_round_key(&mut block, &round_keys[0]);
    let mut r: usize = 1;
    while r < last
        invariant
            1 <= r <= last,
            last == round_keys@.len() - 1,
            keys == schedule_view(round_keys@),
            block@ == rounds(state@, keys, (r - 1) as nat),
        decreases last - r,
    {
        block = substitute(block);
        shift_rows(&mut block);
        mix_columns(&mut block);
        add_round_key(&mut block, &round_keys[r]);
        r += 1;
    }
    block = substitute(block);
    shift_rows(&mut block);
    add_round_key(&mut block, &round_keys[last]);
    block
}

/// Among the encryptions of the blocks of `source` from byte `done` on, the one
/// of the block at byte `at` stands `at - done` bytes from the start.
proof fn lemma_next_block(source: Seq<u8>, done: int, at: int, round_keys: Seq<Seq<Seq<u8>>>)
    requires
        0 <= done <= at,
        at + 16 <= source.len(),
        done % 16 == 0,
        at % 16 == 0,
    ensures
        encrypt_blocks(source.skip(done), round_keys).subrange(at - done, at - done + 16)
            == encrypt_block(source.subrange(at, at + 16), round_keys),
{
    let rest = source.skip(done);
    let block = source.subrange(at, at + 16);
    assert forall|i: int| 0 <= i < 16 implies encrypt_blocks(rest, round_keys)[at - done + i]
        == encrypt_block(block, round_keys)[i] by {
        let j = at - done + i;
        assert(16 * (j / 16) == at - done && j % 16 == i);
        assert(rest.subrange(at - done, at - done + 16) =~= block);
    }
    assert(encrypt_blocks(rest, round_keys).subrange(at - done, at - done + 16) =~= encrypt_block(
        block,
        round_keys,
    ));
}

/// Data on its way through the cipher: the blocks of the source are encrypted
/// one after the other, and their encryptions gathered in the same order.
pub struct Encoder<'a> {
    src: &'a [u8],
    dst: Vec<u8>,
}

impl<'a> Encoder<'a> {
    /// The data that is being encrypted.
    pub closed spec fn source(&self) -> Seq<u8> {
        self.src@
    }

    /// The encryptions gathered so far.
    pub closed spec fn output(&self) -> Seq<u8> {
        self.dst@
    }

    /// Source and output consist of whole blocks, and no more blocks have come
    /// out than went in.
    pub open spec fn wf(&self) -> bool {
        &&& self.source().len() % 16 == 0
        &&& self.output().len() % 16 == 0
        &&& self.output().len() <= self.source().len()
    }

    /// An encoder for data that consists of whole blocks of 16 bytes, with
    /// nothing encrypted yet. Other data is refused.
    pub fn new(data: &'a [u8]) -> (r: Result<Self, InputError>)
        ensures
            data@.len() % 16 == 0 ==> r is Ok && r->Ok_0.wf() && r->Ok_0.source() == data@
                && r->Ok_0.output() == Seq::<u8>::empty(),
            data@.len() % 16 != 0 ==> r is Err && r->Err_0 == InputError::InvalidBlockLength,
    {
        if data.len() % crate::BLOCK_LEN_BYTE != 0 {
            return Err(InputError::InvalidBlockLength);
        }
        Ok(Self { src: data, dst: Vec::with_capacity(data.len()) })
    }

    /// The number of blocks that are still to be encrypted.
    pub fn remaining(&self) -> (n: usize)
        requires
            self.wf(),
        ensures
            n == (self.source().len() - self.output().len()) / 16,
    {
        (self.src.len() - self.dst.len()) / crate::BLOCK_LEN_BYTE
    }

    /// Encrypts the next block of the source and puts the result after the
    /// output.
    pub fn encode_block(&mut self, round_keys: &Vec<Block>)
        requires
            old(self).wf(),
            old(self).output().len() < old(self).source().len(),
            round_keys@.len() >= 2,
        ensures
            final(self).wf(),
            final(self).source() == old(self).source(),
            final(self).output() == old(self).output() + encrypt_block(
                old(self).source().subrange(
                    old(self).output().len() as int,
                    old(self).output().len() as int + 16,
                ),
                schedule_view(round_keys@),
            ),
    {
        let start: usize = self.dst.len();
        proof {
            vstd::slice::axiom_spec_len(self.src);
        }
        let chunk = slice_subrange(self.src, start, start + crate::BLOCK_LEN_BYTE);
        let loaded: Block = Block::try_from(chunk).unwrap();
        let state: Block = loaded.transposed();
        assert(state@ =~~= state_of(chunk@));
        let result: Block = encode_state(state, round_keys);
        let mut bytes: Vec<u8> = result.transposed().to_vec();
        assert(bytes@ =~= bytes_of(result@));
        self.dst.append(&mut bytes);
    }

    /// Encrypts the blocks that are left, and gives out everything that was
    /// gathered.
    pub fn encode(self, round_keys: &Vec<Block>) -> (out: Vec<u8>)
        requires
            self.wf(),
            round_keys@.len() >= 2,
        ensures
            out@ == self.output() + encrypt_blocks(
                self.source().skip(self.output().len() as int),
                schedule_view(round_keys@),
            ),
    {
        let mut encoder = self;
        let ghost keys = schedule_view(round_keys@);
        let ghost done = self.output().len() as int;
        let ghost rest = self.source().skip(done);
        while encoder.dst.len() < encoder.src.len()
            invariant
                self.wf(),
                encoder.wf(),
                round_keys@.len() >= 2,
                keys == schedule_view(round_keys@),
                encoder.source() == self.source(),
                done == self.output().len(),
                rest == self.source().skip(done),
                done <= encoder.output().len(),
                encoder.output() == self.output() + encrypt_blocks(rest, keys).subrange(
                    0,
                    encoder.output().len() - done,
                ),
            decreases encoder.source().len() - encoder.output().len(),
        {
            let ghost before = encoder.output();
            encoder.encode_block(round_keys);
            proof {
                lemma_next_block(self.source(), done, before.len() as int, keys);
                assert(encoder.output() =~= self.output() + encrypt_blocks(rest, keys).subrange(
                    0,
                    encoder.output().len() - done,
                ));
            }
        }
        assert(encrypt_blocks(rest, keys).subrange(0, encoder.output().len() - done)
            =~= encrypt_blocks(rest, keys));
        encoder.dst
    }
}

} // verus!
