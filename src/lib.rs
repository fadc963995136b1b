//! A fixed-shift substitution cipher over the ASCII letters.
//!
//! Each ASCII letter moves a fixed number of places along its own 26-letter
//! alphabet, wrapping from `z` to `a` (and `Z` to `A`); every other character
//! is left as it is.
pub mod letter;
pub mod text;

pub use letter::{decrypt_character, encrypt_character};
pub use text::{decrypt, encrypt};
