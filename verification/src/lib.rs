//! Classical ciphers and encodings with machine-checked contracts.
//!
//! The heart of the crate is the Caesar rotation in [`rotation`]: its
//! mathematical model, the executable transform, and the laws that relate
//! encryption and decryption. [`analysis`] breaks the cipher by trying all
//! 26 keys, [`scoring`] says how much of a candidate text is made of known
//! words, and [`ratio`] compares such scores exactly. [`encoding`] holds a
//! Morse codec.
//!
//! This crate is for learning. A Caesar cipher protects nothing.

pub mod analysis;
pub mod caesar;
pub mod ceasar_cipher;
pub mod classical;
pub mod decoded;
pub mod encoding;
pub mod ratio;
pub mod rotation;
pub mod scoring;
mod seq_lemmas;
pub mod text;
pub mod traits;
pub mod utils;
pub mod vocabulary;

pub use crate::classical::caesar::CaesarCipher;
pub use crate::decoded::DecodedResult;
pub use crate::encoding::morse::Morse;
pub use crate::encoding::morse_code::MorseLang;
pub use crate::ratio::Ratio;
pub use crate::rotation::normalize_shift;
pub use crate::scoring::meaningful_ratio;
pub use crate::traits::{BruteForce, ClassicalCipher, Codec, PyBruteForce};
pub use crate::utils::parse_key_i8;
pub use crate::vocabulary::Vocabulary;
