use vstd::prelude::*;

verus! {

/// Everything that can go wrong inside the locker core. All variants are
/// local, recoverable-by-caller conditions; no core function panics.
#[derive(Clone, Copy, Debug, PartialEq, Eq, Structural)]
pub enum LockerError {
    /// Entropy length is neither 16 nor 32 bytes.
    InvalidEntropySize,
    /// Mnemonic length is neither 12 nor 24 words.
    InvalidMnemonicLength,
    /// A mnemonic word is not in the dictionary.
    UnknownWord,
    /// The trailing checksum bits do not match the recovered entropy.
    InvalidChecksum,
    /// The dictionary could not be loaded or is malformed.
    WordListUnavailable,
    /// The derived bytes do not form a valid curve scalar.
    KeyDerivationFailure,
    /// The locking output could not be encoded as an address.
    AddressEncodingFailure,
}

} // verus!
