//! Mode selection and the full cipher pipeline: normalize the raw key
//! and text, resize the key, and apply the chosen transform.

use vstd::prelude::*;

use crate::alphabet::{all_letters, names_first_non_letter};
use crate::cipher::{decrypt, decrypted, encrypt, encrypted};
use crate::error::CipherError;
use crate::key::{adjusted_key, normalise_key_length};
use crate::normalize::{clean_string, normalize};
use vstd::string::StringExecFns;

verus! {

/// The direction of the transform, chosen once at the boundary.
#[derive(Debug, Clone, Copy, PartialEq, Eq, Structural)]
pub enum Mode {
    Encrypt,
    Decrypt,
}

/// Parse the command-line flag token: `-e` selects encryption, `-d`
/// decryption, and anything else is rejected.
pub fn parse_flag(flag: &String) -> (r: Option<Mode>)
    ensures
        (r == Some(Mode::Encrypt)) <==> flag@ == "-e"@,
        (r == Some(Mode::Decrypt)) <==> flag@ == "-d"@,
        (r is None) <==> (flag@ != "-e"@ && flag@ != "-d"@),
{
    proof {
        reveal_strlit("-e");
        reveal_strlit("-d");
        assert("-e"@[1] == 'e' && "-d"@[1] == 'd');
        assert("-e"@ != "-d"@);
    }
    let e_flag = String::from_str("-e");
    let d_flag = String::from_str("-d");
    if *flag == e_flag {
        Some(Mode::Encrypt)
    } else if *flag == d_flag {
        Some(Mode::Decrypt)
    } else {
        None
    }
}

/// Run the whole pipeline: normalize the raw key and text, resize the
/// key to the text's length, and encrypt or decrypt as `mode` says.
/// Fails with `EmptyKey` when the normalized key is empty but the text
/// is not, and with `InvalidCharacter` on the first character of the
/// adjusted key, then of the text, that is not one of the 26 letters.
pub fn run_cipher(mode: Mode, raw_key: &String, raw_text: &String) -> (r: Result<
    String,
    CipherError,
>)
    ensures
        ({
            let nk = normalize(raw_key@);
            let nt = normalize(raw_text@);
            let ak = adjusted_key(nk, nt.len());
            &&& (r is Ok) <==> (!(nk.len() == 0 && nt.len() > 0) && all_letters(ak)
                && all_letters(nt))
            &&& r is Ok ==> r->Ok_0@ == (if mode == Mode::Encrypt {
                encrypted(ak, nt)
            } else {
                decrypted(ak, nt)
            })
            &&& (r == Err::<String, CipherError>(CipherError::EmptyKey)) <==> (nk.len() == 0
                && nt.len() > 0)
            &&& (r is Err && r->Err_0 != CipherError::EmptyKey) ==> if !all_letters(ak) {
                names_first_non_letter(ak, r->Err_0)
            } else {
                names_first_non_letter(nt, r->Err_0)
            }
        }),
{
    let mut key_source = raw_key.clone();
    let mut key_text = clean_string(&mut key_source);
    let mut text_source = raw_text.clone();
    let input_text = clean_string(&mut text_source);
    match normalise_key_length(&mut key_text, &input_text) {
        Ok(u) => u,
        Err(e) => {
            return Err(e);
        },
    };
    match mode {
        Mode::Encrypt => encrypt(&key_text, &input_text),
        Mode::Decrypt => decrypt(&key_text, &input_text),
    }
}

} // verus!
