//! The Caesar cipher in two more shapes: a cipher object that keeps the
//! plain text and the cipher text it works on, and plain functions.

pub mod caesar_fn;
pub mod cipher;
