//! A Vigenère-style polyalphabetic substitution cipher over the 26
//! uppercase Latin letters.
//!
//! Raw key and text are normalized to alphabet-only strings, the key is
//! resized to the text's length by repetition or truncation, and each
//! character is shifted by modular addition (encryption) or subtraction
//! (decryption) of alphabet positions.

pub mod alphabet;
pub mod cipher;
pub mod error;
pub mod key;
pub mod normalize;
pub mod pipeline;
