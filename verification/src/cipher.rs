//! The cipher transform: per-position modular addition (encryption) or
//! subtraction (decryption) of alphabet positions, for length-matched
//! key and text.

use vstd::prelude::*;

use crate::alphabet::{
    all_letters, is_letter, letter_at, letter_index, names_first_non_letter, nums_to_string,
    string_to_nums,
};
use crate::error::CipherError;

verus! {

/// The encryption of `t` under the length-matched key `k`: position
/// `i` holds the letter at `(t[i] + k[i]) mod 26`.
pub open spec fn encrypted(k: Seq<char>, t: Seq<char>) -> Seq<char> {
    Seq::new(t.len(), |i: int| letter_at((letter_index(t[i]) + letter_index(k[i])) % 26))
}

/// The decryption of `t` under the length-matched key `k`: position
/// `i` holds the letter at `(t[i] - k[i]) mod 26`, with the
/// mathematical (always non-negative) modulo.
pub open spec fn decrypted(k: Seq<char>, t: Seq<char>) -> Seq<char> {
    Seq::new(t.len(), |i: int| letter_at((letter_index(t[i]) - letter_index(k[i])) % 26))
}

/// Encrypt `plaintext` under the length-matched `key` by modular
/// addition of alphabet positions. Fails on the first character of the
/// key, then of the text, that is not one of the 26 uppercase letters.
pub fn encrypt(key: &String, plaintext: &String) -> (r: Result<String, CipherError>)
    requires
        key@.len() == plaintext@.len(),
    ensures
        (r is Ok) <==> (all_letters(key@) && all_letters(plaintext@)),
        r is Ok ==> r->Ok_0@ == encrypted(key@, plaintext@),
        r is Ok ==> r->Ok_0@.len() == plaintext@.len(),
        r is Err ==> if !all_letters(key@) {
            names_first_non_letter(key@, r->Err_0)
        } else {
            names_first_non_letter(plaintext@, r->Err_0)
        },
{
    let num_key = match string_to_nums(key) {
        Ok(v) => v,
        Err(e) => {
            return Err(e);
        },
    };
    let num_text = match string_to_nums(plaintext) {
        Ok(v) => v,
        Err(e) => {
            return Err(e);
        },
    };
    let n = num_text.len();
    let mut out_nums: Vec<i8> = Vec::new();
    let mut i: usize = 0;
    while i < n
        invariant
            n == plaintext@.len(),
            num_key@.len() == key@.len(),
            num_text@.len() == plaintext@.len(),
            key@.len() == plaintext@.len(),
            forall|j: int| 0 <= j < n ==> #[trigger] num_key@[j] as int == letter_index(key@[j]),
            forall|j: int|
                0 <= j < n ==> #[trigger] num_text@[j] as int == letter_index(plaintext@[j]),
            forall|j: int| 0 <= j < n ==> 0 <= #[trigger] num_key@[j] < 26,
            forall|j: int| 0 <= j < n ==> 0 <= #[trigger] num_text@[j] < 26,
            i <= n,
            out_nums@.len() == i,
            forall|j: int| 0 <= j < i ==> 0 <= #[trigger] out_nums@[j] < 26,
            forall|j: int|
                0 <= j < i ==> #[trigger] out_nums@[j] as int == (letter_index(plaintext@[j])
                    + letter_index(key@[j])) % 26,
        decreases n - i,
    {
        let t = num_text[i];
        let k = num_key[i];
        out_nums.push((t + k) % 26);
        i += 1;
    }
    let out_text = nums_to_string(&out_nums);
    proof {
        assert(out_text@ =~= encrypted(key@, plaintext@));
    }
    Ok(out_text)
}

/// Decrypt `cyphertext` under the length-matched `key` by modular
/// subtraction of alphabet positions, normalized to the mathematical
/// modulo so every position lands back in `[0, 25]`. Fails on the
/// first character of the key, then of the text, that is not one of
/// the 26 uppercase letters.
pub fn decrypt(key: &String, cyphertext: &String) -> (r: Result<String, CipherError>)
    requires
        key@.len() == cyphertext@.len(),
    ensures
        (r is Ok) <==> (all_letters(key@) && all_letters(cyphertext@)),
        r is Ok ==> r->Ok_0@ == decrypted(key@, cyphertext@),
        r is Ok ==> r->Ok_0@.len() == cyphertext@.len(),
        r is Err ==> if !all_letters(key@) {
            names_first_non_letter(key@, r->Err_0)
        } else {
            names_first_non_letter(cyphertext@, r->Err_0)
        },
{
    let num_key = match string_to_nums(key) {
        Ok(v) => v,
        Err(e) => {
            return Err(e);
        },
    };
    let num_text = match string_to_nums(cyphertext) {
        Ok(v) => v,
        Err(e) => {
            return Err(e);
        },
    };
    let n = num_text.len();
    let mut out_nums: Vec<i8> = Vec::new();
    let mut i: usize = 0;
    while i < n
        invariant
            n == cyphertext@.len(),
            num_key@.len() == key@.len(),
            num_text@.len() == cyphertext@.len(),
            key@.len() == cyphertext@.len(),
            forall|j: int| 0 <= j < n ==> #[trigger] num_key@[j] as int == letter_index(key@[j]),
            forall|j: int|
                0 <= j < n ==> #[trigger] num_text@[j] as int == letter_index(cyphertext@[j]),
            forall|j: int| 0 <= j < n ==> 0 <= #[trigger] num_key@[j] < 26,
            forall|j: int| 0 <= j < n ==> 0 <= #[trigger] num_text@[j] < 26,
            i <= n,
            out_nums@.len() == i,
            forall|j: int| 0 <= j < i ==> 0 <= #[trigger] out_nums@[j] < 26,
            forall|j: int|
                0 <= j < i ==> #[trigger] out_nums@[j] as int == (letter_index(cyphertext@[j])
                    - letter_index(key@[j])) % 26,
        decreases n - i,
    {
        let t = num_text[i];
        let k = num_key[i];
        out_nums.push((t - k + 26) % 26);
        i += 1;
    }
    let out_text = nums_to_string(&out_nums);
    proof {
        assert(out_text@ =~= decrypted(key@, cyphertext@));
    }
    Ok(out_text)
}

/// Round trip: decrypting the encryption of a text with the same key
/// restores the text exactly.
pub proof fn lemma_round_trip(k: Seq<char>, t: Seq<char>)
    requires
        k.len() == t.len(),
        all_letters(k),
        all_letters(t),
    ensures
        decrypted(k, encrypted(k, t)) == t,
{
    let e = encrypted(k, t);
    assert forall|i: int| 0 <= i < t.len() implies decrypted(k, e)[i] == t[i] by {
        let ti = letter_index(t[i]);
        let ki = letter_index(k[i]);
        assert(is_letter(t[i]) && is_letter(k[i]));
        assert(0 <= ti < 26 && 0 <= ki < 26);
        let s = (ti + ki) % 26;
        assert(0 <= s < 26);
        assert(letter_index(e[i]) == s);
        assert((s - ki) % 26 == ti);
    }
    assert(decrypted(k, e) =~= t);
}

/// Alphabet closure: every character the transform produces is one of
/// the 26 uppercase letters.
pub proof fn lemma_alphabet_closure(k: Seq<char>, t: Seq<char>)
    requires
        k.len() == t.len(),
        all_letters(k),
        all_letters(t),
    ensures
        all_letters(encrypted(k, t)),
        all_letters(decrypted(k, t)),
{
    assert forall|i: int| 0 <= i < t.len() implies is_letter(#[trigger] encrypted(k, t)[i])
        && is_letter(#[trigger] decrypted(k, t)[i]) by {
        assert(is_letter(t[i]) && is_letter(k[i]));
    }
}

} // verus!
