use wallet_keys::keys::{generate_mnemonic, mnemonic_to_descriptors, restore_mnemonic, KeyError};

fn twelve_valid_words() -> Vec<&'static str> {
    vec![
        "abandon", "abandon", "abandon", "abandon", "abandon", "abandon", "abandon", "abandon",
        "abandon", "abandon", "abandon", "about",
    ]
}

#[test]
fn test_generate_mnemonic() {
    assert!(generate_mnemonic().is_ok());
    assert_eq!(generate_mnemonic().unwrap().len(), 12);
}

#[test]
fn test_restore_mnemonic() {
    let mnemonic: Vec<&str> = generate_mnemonic().unwrap();
    assert!(restore_mnemonic(mnemonic.clone()).is_ok());
    let restored_mnemonic = restore_mnemonic(mnemonic.clone()).unwrap();
    assert_eq!(restored_mnemonic.len(), 12);
    assert_eq!(restored_mnemonic, mnemonic)
}

#[test]
fn test_mnemonic_to_descriptors() {
    let mnemonic: Vec<&str> = generate_mnemonic().unwrap();
    let passphrase = "passphrase";
    let (external_desc_priv, internal_desc_priv) =
        mnemonic_to_descriptors(mnemonic.clone(), Some(passphrase)).unwrap();
    assert!(external_desc_priv.contains("wpkh"));
    assert!(internal_desc_priv.contains("wpkh"));
}

#[test]
fn restore_keeps_each_allowed_length_unchanged() {
    for &n in &[12usize, 15, 18, 21, 24] {
        let words: Vec<&'static str> = vec!["word"; n];
        let restored = restore_mnemonic(words.clone()).unwrap();
        assert_eq!(restored, words);
    }
}

#[test]
fn restore_rejects_disallowed_lengths() {
    for &n in &[0usize, 1, 5, 11, 13, 14, 16, 23, 25, 48] {
        let words: Vec<&'static str> = vec!["word"; n];
        let err = restore_mnemonic(words).unwrap_err();
        assert_eq!(err, KeyError::InvalidLength);
    }
}

#[test]
fn restore_of_generated_mnemonic_round_trips() {
    let generated = generate_mnemonic().unwrap();
    let restored = restore_mnemonic(generated.clone()).unwrap();
    assert_eq!(restored, generated);
}

#[test]
fn descriptors_of_known_mnemonic_are_wpkh_and_distinct() {
    let (external, internal) =
        mnemonic_to_descriptors(twelve_valid_words(), Some("passphrase")).unwrap();
    assert!(external.starts_with("wpkh("));
    assert!(internal.starts_with("wpkh("));
    assert_ne!(external, internal);
}

#[test]
fn descriptor_derivation_is_deterministic() {
    let first = mnemonic_to_descriptors(twelve_valid_words(), Some("passphrase")).unwrap();
    let second = mnemonic_to_descriptors(twelve_valid_words(), Some("passphrase")).unwrap();
    assert_eq!(first, second);
}

#[test]
fn descriptor_derivation_without_passphrase_is_deterministic() {
    let first = mnemonic_to_descriptors(twelve_valid_words(), None).unwrap();
    let second = mnemonic_to_descriptors(twelve_valid_words(), None).unwrap();
    assert_eq!(first, second);
}

#[test]
fn different_passphrases_yield_different_descriptors() {
    let first = mnemonic_to_descriptors(twelve_valid_words(), Some("passphrase")).unwrap();
    let second = mnemonic_to_descriptors(twelve_valid_words(), Some("other")).unwrap();
    assert_ne!(first.0, second.0);
    assert_ne!(first.1, second.1);
}

#[test]
fn missing_passphrase_differs_from_a_given_one() {
    let with_none = mnemonic_to_descriptors(twelve_valid_words(), None).unwrap();
    let with_some = mnemonic_to_descriptors(twelve_valid_words(), Some("passphrase")).unwrap();
    assert_ne!(with_none.0, with_some.0);
    assert_ne!(with_none.1, with_some.1);
}

#[test]
fn bad_checksum_fails_descriptor_derivation() {
    let words: Vec<&'static str> = vec!["abandon"; 12];
    let err = mnemonic_to_descriptors(words, None).unwrap_err();
    assert_eq!(err, KeyError::ParseOrDerivation);
}

#[test]
fn words_outside_the_wordlist_fail_descriptor_derivation() {
    let words: Vec<&'static str> = vec!["notaword"; 12];
    let err = mnemonic_to_descriptors(words, Some("passphrase")).unwrap_err();
    assert_eq!(err, KeyError::ParseOrDerivation);
}

#[test]
fn descriptors_embed_key_and_derivation_path() {
    let (external, internal) = mnemonic_to_descriptors(twelve_valid_words(), None).unwrap();
    assert!(external.contains("tprv"));
    assert!(internal.contains("tprv"));
    assert!(external.contains("/84'/1'/0'"));
    assert!(internal.contains("/84'/1'/0'"));
    assert!(external.contains("/0/*"));
    assert!(internal.contains("/1/*"));
}

#[test]
fn generated_mnemonic_parses_and_derives_descriptors() {
    let generated = generate_mnemonic().unwrap();
    let (external, internal) = mnemonic_to_descriptors(generated, None).unwrap();
    assert!(external.starts_with("wpkh("));
    assert!(internal.starts_with("wpkh("));
    assert_ne!(external, internal);
}
