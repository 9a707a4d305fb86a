//! Ciphers from before the age of computers.

pub mod caesar;
