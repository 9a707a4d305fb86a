//! Encodings of text for transmission.

pub mod morse;
pub mod morse_code;
