use vstd::prelude::*;

verus! {

/// The ways the cipher pipeline can fail.
#[derive(Debug, Clone, Copy, PartialEq, Eq, Structural)]
pub enum CipherError {
    /// The normalized key is empty while the text is not, so the key
    /// cannot be resized to the text's length.
    EmptyKey,
    /// A character survived normalization but is not one of the 26
    /// uppercase letters, so it has no alphabet position. Carries the
    /// offending character.
    InvalidCharacter(char),
}

} // verus!
