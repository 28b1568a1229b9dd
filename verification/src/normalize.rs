//! Text normalization: uppercase the 26 Latin letters, strip whitespace
//! and ASCII punctuation, and keep every other character untouched.

use vstd::prelude::*;

use crate::alphabet::push_char;

verus! {

/// The uppercase form of `c` under the 26-letter Latin mapping:
/// `'a'..='z'` map to `'A'..='Z'`; every other character is unchanged.
pub open spec fn upper_of(c: char) -> char {
    if 'a' <= c && c <= 'z' {
        (c as int - 32) as char
    } else {
        c
    }
}

/// Whether `c` is a whitespace character (the Unicode `White_Space` set).
pub open spec fn is_space_char(c: char) -> bool {
    ||| c == ' '
    ||| ('\u{9}' <= c && c <= '\u{d}')
    ||| c == '\u{85}'
    ||| c == '\u{a0}'
    ||| c == '\u{1680}'
    ||| ('\u{2000}' <= c && c <= '\u{200a}')
    ||| c == '\u{2028}'
    ||| c == '\u{2029}'
    ||| c == '\u{202f}'
    ||| c == '\u{205f}'
    ||| c == '\u{3000}'
}

/// Whether `c` is an ASCII punctuation character: one of the four runs
/// `!..=/`, `:..=@`, `[..=`` ` ``, `{..=~`.
pub open spec fn is_ascii_punct(c: char) -> bool {
    ||| ('!' <= c && c <= '/')
    ||| (':' <= c && c <= '@')
    ||| ('[' <= c && c <= '`')
    ||| ('{' <= c && c <= '~')
}

/// Whether normalization drops `c` (after uppercasing).
pub open spec fn is_stripped(c: char) -> bool {
    is_space_char(c) || is_ascii_punct(c)
}

/// The normalized form of `s`: every character uppercased, then every
/// whitespace or ASCII punctuation character removed.
pub open spec fn normalize(s: Seq<char>) -> Seq<char>
    decreases s.len(),
{
    if s.len() == 0 {
        Seq::empty()
    } else {
        let c = upper_of(s.last());
        if is_stripped(c) {
            normalize(s.drop_last())
        } else {
            normalize(s.drop_last()).push(c)
        }
    }
}

/// The uppercase form of `c`.
fn upper_char(c: char) -> (r: char)
    ensures
        r == upper_of(c),
{
    if 'a' <= c && c <= 'z' {
        ((c as u32 - 32) as u8) as char
    } else {
        c
    }
}

/// Whether normalization drops `c`.
fn is_stripped_char(c: char) -> (r: bool)
    ensures
        r == is_stripped(c),
{
    let space = c == ' ' || ('\u{9}' <= c && c <= '\u{d}') || c == '\u{85}' || c == '\u{a0}'
        || c == '\u{1680}' || ('\u{2000}' <= c && c <= '\u{200a}') || c == '\u{2028}'
        || c == '\u{2029}' || c == '\u{202f}' || c == '\u{205f}' || c == '\u{3000}';
    let punct = ('!' <= c && c <= '/') || (':' <= c && c <= '@') || ('[' <= c && c <= '`')
        || ('{' <= c && c <= '~');
    space || punct
}

/// Normalize a string: uppercase every Latin letter, remove whitespace
/// and ASCII punctuation, keep all other characters. The argument is
/// left unchanged.
pub fn clean_string(s: &mut String) -> (r: String)
    ensures
        final(s)@ == old(s)@,
        r@ == normalize(old(s)@),
{
    let n = s.as_str().unicode_len();
    let mut out = String::new();
    let mut i: usize = 0;
    while i < n
        invariant
            s@ == old(s)@,
            n == s@.len(),
            i <= n,
            out@ == normalize(s@.take(i as int)),
        decreases n - i,
    {
        let c = upper_char(s.as_str().get_char(i));
        if !is_stripped_char(c) {
            push_char(&mut out, c);
        }
        proof {
            assert(s@.take(i as int + 1).drop_last() =~= s@.take(i as int));
            assert(s@.take(i as int + 1).last() == s@[i as int]);
        }
        i += 1;
    }
    proof {
        assert(s@.take(n as int) =~= s@);
    }
    out
}

/// Every character of a normalized string is its own uppercase form and
/// is not one that normalization strips.
pub proof fn lemma_normalize_chars(s: Seq<char>)
    ensures
        forall|i: int|
            0 <= i < normalize(s).len() ==> upper_of(#[trigger] normalize(s)[i]) == normalize(s)[i]
                && !is_stripped(normalize(s)[i]),
    decreases s.len(),
{
    if s.len() > 0 {
        lemma_normalize_chars(s.drop_last());
        let c = upper_of(s.last());
        let prev = normalize(s.drop_last());
        if !is_stripped(c) {
            assert(upper_of(c) == c);
            assert forall|i: int| 0 <= i < normalize(s).len() implies upper_of(
                #[trigger] normalize(s)[i],
            ) == normalize(s)[i] && !is_stripped(normalize(s)[i]) by {
                if i < prev.len() {
                    assert(normalize(s)[i] == prev[i]);
                } else {
                    assert(normalize(s)[i] == c);
                }
            }
        }
    }
}

/// A string whose characters are all uppercase-fixed and unstripped is
/// its own normalized form.
proof fn lemma_normalize_fixed(t: Seq<char>)
    requires
        forall|i: int|
            0 <= i < t.len() ==> upper_of(#[trigger] t[i]) == t[i] && !is_stripped(t[i]),
    ensures
        normalize(t) == t,
    decreases t.len(),
{
    if t.len() == 0 {
        assert(normalize(t) =~= t);
    } else {
        lemma_normalize_fixed(t.drop_last());
        assert(normalize(t) =~= t);
    }
}

/// Normalization is idempotent: normalizing an already normalized
/// string changes nothing.
pub proof fn lemma_normalize_idempotent(s: Seq<char>)
    ensures
        normalize(normalize(s)) == normalize(s),
{
    lemma_normalize_chars(s);
    lemma_normalize_fixed(normalize(s));
}

} // verus!
