use ecash_wallet::error::ErrorKind;
use ecash_wallet::seed::{
    generate_mnemonic_phrase, mnemonic_to_seed_hex, parse_seed_from_hex, seed_hex_to_mnemonic,
    validate_mnemonic_phrase, wallet_seed_from_hex, working_seed,
};

const ABANDON: &str = "abandon abandon abandon abandon abandon abandon abandon abandon abandon abandon abandon about";
const ABANDON_SEED: &str = "5eb00bbddcf069084889a8ab9155568165f5c453ccb85e70811aaed6f6da5fc19a5ac40b389cd370d086206dec8aa6c43daea6690f20ad3d8d48b2d2ce9e38e4";

#[test]
fn seed_hex_lengths() {
    assert_eq!(parse_seed_from_hex(&"ab".repeat(32)).unwrap(), vec![0xab; 32]);
    assert_eq!(parse_seed_from_hex(&"0F".repeat(64)).unwrap(), vec![0x0f; 64]);
    assert_eq!(parse_seed_from_hex(&"ab".repeat(16)).unwrap_err().kind, ErrorKind::InvalidInput);
    assert_eq!(parse_seed_from_hex(&"zz".repeat(32)).unwrap_err().kind, ErrorKind::InvalidInput);
}

#[test]
fn working_seed_keeps_long_and_expands_short() {
    let long = vec![7u8; 64];
    assert_eq!(working_seed(&long).unwrap(), long);
    let short = vec![7u8; 32];
    let w = working_seed(&short).unwrap();
    assert_eq!(w.len(), 64);
    assert_ne!(&w[..32], &short[..]);
    assert_ne!(&w[..32], &w[32..]);
    assert_eq!(working_seed(&short).unwrap(), w);
    assert_eq!(working_seed(&vec![1u8; 48]).unwrap_err().kind, ErrorKind::InvalidInput);
    assert_eq!(wallet_seed_from_hex(&"07".repeat(32)).unwrap(), w);
}

#[test]
fn known_mnemonic_vector() {
    assert_eq!(seed_hex_to_mnemonic(&"00".repeat(16)).unwrap(), ABANDON);
    assert_eq!(mnemonic_to_seed_hex(ABANDON).unwrap(), ABANDON_SEED);
    assert!(validate_mnemonic_phrase(ABANDON));
    assert!(!validate_mnemonic_phrase("abandon abandon abandon"));
    assert_eq!(mnemonic_to_seed_hex("not a phrase").unwrap_err().kind, ErrorKind::InvalidInput);
    assert_eq!(seed_hex_to_mnemonic(ABANDON_SEED).unwrap_err().kind, ErrorKind::InvalidInput);
}

#[test]
fn generated_mnemonics_have_requested_words() {
    let m12 = generate_mnemonic_phrase(12).unwrap();
    assert_eq!(m12.split(' ').count(), 12);
    assert!(validate_mnemonic_phrase(&m12));
    let m24 = generate_mnemonic_phrase(24).unwrap();
    assert_eq!(m24.split(' ').count(), 24);
    assert_eq!(generate_mnemonic_phrase(15).unwrap_err().kind, ErrorKind::InvalidInput);
}

#[test]
fn entropy_round_trips_through_mnemonic() {
    let m = seed_hex_to_mnemonic(&"7f".repeat(32)).unwrap();
    assert!(validate_mnemonic_phrase(&m));
    assert_eq!(m.split(' ').count(), 24);
}
