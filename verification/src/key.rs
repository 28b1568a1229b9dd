//! Key adjustment: resizing a normalized key to the text's length by
//! repetition (when shorter) or truncation (when longer).

use vstd::prelude::*;

use crate::alphabet::push_char;
use crate::error::CipherError;

verus! {

/// The key `k` resized to length `n`: position `i` holds `k[i mod |k|]`,
/// which is exactly `k` repeated and then truncated to `n` characters.
/// For an empty `k` this is meaningful only when `n == 0`, where it is
/// the empty sequence.
pub open spec fn adjusted_key(k: Seq<char>, n: nat) -> Seq<char> {
    Seq::new(n, |i: int| k[i % (k.len() as int)])
}

/// Resize `key` in place to exactly the length of `text`, repeating it
/// while it is shorter and truncating it when it is longer. Fails, and
/// leaves the key unchanged, when the key is empty but the text is not:
/// an empty key cannot be repeated to a positive length.
pub fn normalise_key_length(key: &mut String, text: &String) -> (r: Result<(), CipherError>)
    ensures
        (r is Ok) <==> !(old(key)@.len() == 0 && text@.len() > 0),
        r is Ok ==> final(key)@ == adjusted_key(old(key)@, text@.len()),
        r is Err ==> r == Err::<(), CipherError>(CipherError::EmptyKey) && final(key)@ == old(
            key,
        )@,
{
    let key_len = key.as_str().unicode_len();
    let text_len = text.as_str().unicode_len();
    if key_len == 0 {
        if text_len > 0 {
            return Err(CipherError::EmptyKey);
        }
        proof {
            assert(key@ =~= adjusted_key(key@, text@.len()));
        }
        return Ok(());
    }
    let mut out = String::new();
    let mut i: usize = 0;
    while i < text_len
        invariant
            key@ == old(key)@,
            key_len == key@.len(),
            key_len > 0,
            text_len == text@.len(),
            i <= text_len,
            out@.len() == i,
            forall|j: int| 0 <= j < i ==> out@[j] == key@[j % (key_len as int)],
        decreases text_len - i,
    {
        let c = key.as_str().get_char(i % key_len);
        push_char(&mut out, c);
        i += 1;
    }
    *key = out;
    proof {
        assert(key@ =~= adjusted_key(old(key)@, text@.len()));
    }
    Ok(())
}

} // verus!
