//! Breaking a repeating-key XOR cipher from a corpus of ciphertexts that share
//! one key, by scoring each key position's column of bytes against English
//! letter frequencies.

pub mod xor;
pub mod frequency;
pub mod breaker;
pub mod hex;

pub use breaker::{break_single_xor, key_column, recover_key};
pub use frequency::{english_char_frequency, score_decryption, FrequencyTable};
pub use hex::{hex_to_bytes, DecodeError};
pub use xor::xor_decrypt;
