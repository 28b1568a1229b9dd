//! The bijection between the 26 uppercase Latin letters and their
//! zero-based alphabet positions, and the conversions between strings
//! and position sequences built on it.

use vstd::prelude::*;

use crate::error::CipherError;

verus! {

/// Whether `c` is one of the 26 uppercase Latin letters.
pub open spec fn is_letter(c: char) -> bool {
    'A' <= c && c <= 'Z'
}

/// Whether every character of `s` is one of the 26 uppercase letters.
pub open spec fn all_letters(s: Seq<char>) -> bool {
    forall|i: int| 0 <= i < s.len() ==> is_letter(#[trigger] s[i])
}

/// Whether `e` names the first character of `s` that is not one of the
/// 26 uppercase letters.
pub open spec fn names_first_non_letter(s: Seq<char>, e: CipherError) -> bool {
    exists|i: int|
        0 <= i < s.len() && !is_letter(#[trigger] s[i]) && e == CipherError::InvalidCharacter(
            s[i],
        ) && (forall|j: int| 0 <= j < i ==> is_letter(#[trigger] s[j]))
}

/// The zero-based alphabet position of an uppercase letter
/// (`'A'` is 0, `'Z'` is 25).
pub open spec fn letter_index(c: char) -> int {
    c as int - 'A' as int
}

/// The uppercase letter at zero-based alphabet position `i`.
pub open spec fn letter_at(i: int) -> char {
    (i + 'A' as int) as char
}

/// The two maps are inverse: positions 0 to 25 name exactly the 26
/// uppercase letters.
pub proof fn lemma_letter_bijection(i: int, c: char)
    requires
        0 <= i < 26,
        is_letter(c),
    ensures
        is_letter(letter_at(i)),
        letter_index(letter_at(i)) == i,
        0 <= letter_index(c) < 26,
        letter_at(letter_index(c)) == c,
{
}

/// Relies on `String::push`: appends the given character to the end of
/// the string.
#[verifier::external_body]
pub(crate) fn push_char(s: &mut String, c: char)
    ensures
        final(s)@ == old(s)@.push(c),
{
    s.push(c)
}

/// The letter at alphabet position `n`.
fn num_to_letter(n: i8) -> (c: char)
    requires
        0 <= n < 26,
    ensures
        c == letter_at(n as int),
        is_letter(c),
{
    (n as u8 + 65) as char
}

/// The alphabet position of the letter `c`.
fn letter_to_num(c: char) -> (n: i8)
    requires
        is_letter(c),
    ensures
        n as int == letter_index(c),
        0 <= n < 26,
{
    ((c as u32 - 65) as u8) as i8
}

/// Convert a sequence of alphabet positions into the string of the
/// letters at those positions.
pub fn nums_to_string(nums: &Vec<i8>) -> (r: String)
    requires
        forall|i: int| 0 <= i < nums@.len() ==> 0 <= #[trigger] nums@[i] < 26,
    ensures
        r@.len() == nums@.len(),
        forall|i: int| 0 <= i < nums@.len() ==> r@[i] == letter_at(nums@[i] as int),
{
    let mut out = String::new();
    let mut i: usize = 0;
    while i < nums.len()
        invariant
            i <= nums@.len(),
            out@.len() == i,
            forall|j: int| 0 <= j < nums@.len() ==> 0 <= #[trigger] nums@[j] < 26,
            forall|j: int| 0 <= j < i ==> out@[j] == letter_at(nums@[j] as int),
        decreases nums@.len() - i,
    {
        let c = num_to_letter(nums[i]);
        push_char(&mut out, c);
        i += 1;
    }
    out
}

/// Convert a string into the sequence of its characters' alphabet
/// positions. Fails on the first character that is not one of the 26
/// uppercase letters, naming that character.
pub fn string_to_nums(s: &String) -> (r: Result<Vec<i8>, CipherError>)
    ensures
        (r is Ok) <==> all_letters(s@),
        r is Ok ==> r->Ok_0@.len() == s@.len(),
        r is Ok ==> forall|i: int|
            0 <= i < s@.len() ==> #[trigger] r->Ok_0@[i] as int == letter_index(s@[i]),
        r is Ok ==> forall|i: int| 0 <= i < s@.len() ==> 0 <= #[trigger] r->Ok_0@[i] < 26,
        r is Err ==> names_first_non_letter(s@, r->Err_0),
{
    let n = s.as_str().unicode_len();
    let mut out: Vec<i8> = Vec::new();
    let mut i: usize = 0;
    while i < n
        invariant
            n == s@.len(),
            i <= n,
            out@.len() == i,
            forall|j: int| 0 <= j < i ==> is_letter(#[trigger] s@[j]),
            forall|j: int| 0 <= j < i ==> #[trigger] out@[j] as int == letter_index(s@[j]),
        decreases n - i,
    {
        let c = s.as_str().get_char(i);
        if 'A' <= c && c <= 'Z' {
            out.push(letter_to_num(c));
        } else {
            return Err(CipherError::InvalidCharacter(c));
        }
        i += 1;
    }
    Ok(out)
}

} // verus!
