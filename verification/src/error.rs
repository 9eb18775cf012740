//! What can go wrong when the cipher is set up or fed.
use vstd::prelude::*;

verus! {

/// The cipher was asked for something that it is not defined for.
#[derive(Debug, PartialEq, Eq, Clone, Copy)]
pub enum ConfigurationError {
    /// The key is not 16, 24 or 32 bytes long.
    UnsupportedKeyLength,
    /// The round constant with index zero was asked for; the first has index one.
    ZeroRoundIndex,
}

/// The data handed to the cipher cannot be taken.
#[derive(Debug, PartialEq, Eq, Clone, Copy)]
pub enum InputError {
    /// The plaintext does not consist of whole blocks of 16 bytes.
    InvalidBlockLength,
}

/// Why nothing was encrypted.
#[derive(Debug, PartialEq, Eq, Clone, Copy)]
pub enum EncryptError {
    /// The key cannot be used.
    Configuration(ConfigurationError),
    /// The plaintext cannot be used.
    Input(InputError),
}

} // verus!
