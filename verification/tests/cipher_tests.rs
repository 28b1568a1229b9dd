use cypher::alphabet::{nums_to_string, string_to_nums};
use cypher::cipher::{decrypt, encrypt};
use cypher::error::CipherError;
use cypher::key::normalise_key_length;
use cypher::normalize::clean_string;
use cypher::pipeline::{parse_flag, run_cipher, Mode};

#[test]
fn classic_vigenere_example() {
    let key = String::from("LEMONLEMONLE");
    let text = String::from("ATTACKATDAWN");
    let out = encrypt(&key, &text).unwrap();
    assert_eq!(out, "LXFOPVEFRNHR");
    let back = decrypt(&key, &out).unwrap();
    assert_eq!(back, "ATTACKATDAWN");
}

#[test]
fn classic_vigenere_through_pipeline() {
    let key = String::from("LEMON");
    let text = String::from("ATTACKATDAWN");
    let out = run_cipher(Mode::Encrypt, &key, &text).unwrap();
    assert_eq!(out, "LXFOPVEFRNHR");
    let back = run_cipher(Mode::Decrypt, &key, &out).unwrap();
    assert_eq!(back, "ATTACKATDAWN");
}

#[test]
fn round_trip_restores_plaintext() {
    let key = String::from("SECRETKEY");
    let text = String::from("THEQUICKBROWNFOXJUMPSOVERTHELAZYDOG");
    let out = run_cipher(Mode::Encrypt, &key, &text).unwrap();
    let back = run_cipher(Mode::Decrypt, &key, &out).unwrap();
    assert_eq!(back, text);
}

#[test]
fn output_stays_in_alphabet_and_length() {
    let key = String::from("KEY");
    let text = String::from("SOMELONGERPLAINTEXT");
    let out = run_cipher(Mode::Encrypt, &key, &text).unwrap();
    assert_eq!(out.chars().count(), text.chars().count());
    assert!(out.chars().all(|c| c.is_ascii_uppercase()));
    let dec = run_cipher(Mode::Decrypt, &key, &text).unwrap();
    assert_eq!(dec.chars().count(), text.chars().count());
    assert!(dec.chars().all(|c| c.is_ascii_uppercase()));
}

#[test]
fn normalizes_hello_world() {
    let mut raw = String::from("hello world!");
    let cleaned = clean_string(&mut raw);
    assert_eq!(cleaned, "HELLOWORLD");
    assert_eq!(raw, "hello world!");
}

#[test]
fn normalization_is_idempotent() {
    let mut raw = String::from("  Mixed, CASE; and\tpunctuation!? 123");
    let once = clean_string(&mut raw);
    let mut once_again = once.clone();
    let twice = clean_string(&mut once_again);
    assert_eq!(twice, once);
}

#[test]
fn normalization_strips_unicode_whitespace_keeps_digits() {
    let mut raw = String::from("a\u{a0}b\u{2003}c1");
    let cleaned = clean_string(&mut raw);
    assert_eq!(cleaned, "ABC1");
}

#[test]
fn key_repeats_and_truncates_to_odd_length() {
    let mut key = String::from("AB");
    let text = String::from("XXXXX");
    assert_eq!(normalise_key_length(&mut key, &text), Ok(()));
    assert_eq!(key, "ABABA");
}

#[test]
fn key_repeats_to_exact_multiple() {
    let mut key = String::from("AB");
    let text = String::from("XXXXXX");
    assert_eq!(normalise_key_length(&mut key, &text), Ok(()));
    assert_eq!(key, "ABABAB");
}

#[test]
fn key_truncates_when_longer() {
    let mut key = String::from("ABCDE");
    let text = String::from("XYZ");
    assert_eq!(normalise_key_length(&mut key, &text), Ok(()));
    assert_eq!(key, "ABC");
}

#[test]
fn key_unchanged_when_lengths_match() {
    let mut key = String::from("QRS");
    let text = String::from("XYZ");
    assert_eq!(normalise_key_length(&mut key, &text), Ok(()));
    assert_eq!(key, "QRS");
}

#[test]
fn empty_key_with_nonempty_text_is_fatal() {
    let mut key = String::new();
    let text = String::from("ABC");
    assert_eq!(normalise_key_length(&mut key, &text), Err(CipherError::EmptyKey));
    assert_eq!(key, "");
    let out = run_cipher(Mode::Encrypt, &String::from("..."), &String::from("ATTACK"));
    assert_eq!(out, Err(CipherError::EmptyKey));
}

#[test]
fn empty_key_with_empty_text_is_fine() {
    let mut key = String::new();
    let text = String::new();
    assert_eq!(normalise_key_length(&mut key, &text), Ok(()));
    assert_eq!(key, "");
    assert_eq!(run_cipher(Mode::Encrypt, &String::new(), &String::new()), Ok(String::new()));
}

#[test]
fn invalid_flag_is_rejected() {
    assert_eq!(parse_flag(&String::from("-x")), None);
    assert_eq!(parse_flag(&String::from("")), None);
    assert_eq!(parse_flag(&String::from("-e")), Some(Mode::Encrypt));
    assert_eq!(parse_flag(&String::from("-d")), Some(Mode::Decrypt));
}

#[test]
fn string_to_nums_maps_letters_to_positions() {
    let s = String::from("ABZ");
    assert_eq!(string_to_nums(&s), Ok(vec![0, 1, 25]));
}

#[test]
fn string_to_nums_names_first_invalid_character() {
    let s = String::from("A1B2");
    assert_eq!(string_to_nums(&s), Err(CipherError::InvalidCharacter('1')));
}

#[test]
fn nums_to_string_maps_positions_to_letters() {
    let nums = vec![11, 4, 12, 14, 13];
    assert_eq!(nums_to_string(&nums), "LEMON");
}

#[test]
fn digit_surviving_normalization_is_fatal() {
    let key = String::from("KEYKEYKEYKEY");
    let text = String::from("hello 1world");
    let out = run_cipher(Mode::Encrypt, &key, &text);
    assert_eq!(out, Err(CipherError::InvalidCharacter('1')));
}

#[test]
fn invalid_key_character_reported_before_text() {
    let key = String::from("1A");
    let text = String::from("B2");
    assert_eq!(encrypt(&key, &text), Err(CipherError::InvalidCharacter('1')));
    assert_eq!(decrypt(&key, &text), Err(CipherError::InvalidCharacter('1')));
}

#[test]
fn decrypt_wraps_below_zero() {
    let key = String::from("B");
    let text = String::from("A");
    assert_eq!(decrypt(&key, &text).unwrap(), "Z");
}

#[test]
fn encrypt_wraps_past_z() {
    let key = String::from("C");
    let text = String::from("Z");
    assert_eq!(encrypt(&key, &text).unwrap(), "B");
}
