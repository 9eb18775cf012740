//! The pieces of the key schedule that work on one word: the round constants
//! and the rotation.
use crate::error::ConfigurationError;
use crate::gf::{double, gf_double};
use crate::key::Word;
use vstd::prelude::*;

verus! {

/// The first byte of round constant `i`, for `i` from one: one for the first,
/// and from then on the one before times x in GF(2^8).
pub open spec fn rc_spec(i: nat) -> u8
    recommends
        i >= 1,
    decreases i,
{
    if i <= 1 {
        1
    } else {
        gf_double(rc_spec((i - 1) as nat))
    }
}

/// Round constant `i`, for `i` from one: the byte `rc_spec(i)` and three
/// zero bytes.
pub open spec fn rcon_spec(i: nat) -> Seq<u8>
    recommends
        i >= 1,
{
    seq![rc_spec(i), 0u8, 0u8, 0u8]
}

/// A word rotated to the left by one byte: the first byte goes to the end.
pub open spec fn rot_word_spec(w: Seq<u8>) -> Seq<u8>
    recommends
        w.len() == 4,
{
    seq![w[1], w[2], w[3], w[0]]
}

/// Round constant `i` as a word. There is none with index zero.
pub fn rcon(i: usize) -> (r: Result<Word, ConfigurationError>)
    ensures
        i == 0 ==> r == Err::<Word, ConfigurationError>(ConfigurationError::ZeroRoundIndex),
        i >= 1 ==> r is Ok && r->Ok_0@ == rcon_spec(i as nat),
{
    match rc(i) {
        Ok(first) => {
            let word: Word = [first, 0, 0, 0];
            Ok(word)
        },
        Err(e) => Err(e),
    }
}

/// The first byte of round constant `i`. There is none with index zero.
pub fn rc(i: usize) -> (r: Result<u8, ConfigurationError>)
    ensures
        i == 0 ==> r == Err::<u8, ConfigurationError>(ConfigurationError::ZeroRoundIndex),
        i >= 1 ==> r == Ok::<u8, ConfigurationError>(rc_spec(i as nat)),
{
    if i == 0 {
        return Err(ConfigurationError::ZeroRoundIndex);
    }
    let mut value: u8 = 1;
    let mut n: usize = 1;
    while n < i
        invariant
            1 <= n <= i,
            value == rc_spec(n as nat),
        decreases i - n,
    {
        value = double(value);
        n += 1;
    }
    Ok(value)
}

/// Rotates a word to the left by one byte.
pub fn rot_word(input: Word) -> (r: Word)
    ensures
        r@ == rot_word_spec(input@),
{
    let r: Word = [input[1], input[2], input[3], input[0]];
    r
}

} // verus!
