//! A verified core for a hash-locked "locker": deterministic mnemonic
//! generation from entropy, seed and guardian-key derivation, and
//! construction of the locking script and its network-tagged address.

pub mod address;
pub mod bits;
pub mod crypto;
pub mod errors;
pub mod locker;
pub mod secret;
pub mod transactions;
pub mod wordlist;
