//! Generation and restoration of BIP39 mnemonic phrases, and derivation of
//! BIP84 (native segwit) descriptor strings from them.

pub mod keys;
