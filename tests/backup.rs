use ecash_wallet::backup::{
    decode_wallet_record, encode_wallet_record, open_wallet_record, reconcile_token_records,
    seal_wallet_record, TokenRecord, WalletRecord,
};
use ecash_wallet::error::ErrorKind;
use ecash_wallet::identity::generate_keys;
use ecash_wallet::proofs::{create_cashu_proof, CashuProof};

fn p(secret: &str, amount: u64) -> CashuProof {
    create_cashu_proof("009a1f293253e41e".to_string(), amount, secret.to_string(), "c".to_string())
}

fn rec(id: &str, mint: &str, proofs: Vec<CashuProof>, deleted: &[&str], at: u64) -> TokenRecord {
    TokenRecord {
        id: id.to_string(),
        mint_url: mint.to_string(),
        proofs,
        deleted_token_ids: deleted.iter().map(|d| d.to_string()).collect(),
        created_at: at,
    }
}

fn secrets(v: &[CashuProof]) -> Vec<String> {
    v.iter().map(|p| p.secret.clone()).collect()
}

#[test]
fn wallet_record_text_round_trip() {
    let r = WalletRecord {
        privkey_reference: "nsec1abc".to_string(),
        mints: vec!["https://a.mint".to_string(), "http://b.onion".to_string()],
    };
    let text = encode_wallet_record(&r);
    assert_eq!(text, "nsec1abc\nhttps://a.mint\nhttp://b.onion");
    let back = decode_wallet_record(&text).unwrap();
    assert_eq!(back.privkey_reference, r.privkey_reference);
    assert_eq!(back.mints, r.mints);
    let bare = decode_wallet_record("key").unwrap();
    assert!(bare.mints.is_empty());
    assert_eq!(decode_wallet_record("").unwrap_err().kind, ErrorKind::InvalidInput);
}

#[test]
fn sealed_wallet_record_opens_only_for_owner() {
    let owner = generate_keys().unwrap();
    let other = generate_keys().unwrap();
    let r = WalletRecord { privkey_reference: "ref".to_string(), mints: vec!["https://a.mint".to_string()] };
    let sealed = seal_wallet_record(&r, &owner.public_key, &owner.private_key).unwrap();
    let back = open_wallet_record(&sealed, &owner.public_key, &owner.private_key).unwrap();
    assert_eq!(back.mints, r.mints);
    assert_eq!(
        open_wallet_record(&sealed, &owner.public_key, &other.private_key).unwrap_err().kind,
        ErrorKind::DecryptionFailed
    );
}

#[test]
fn newer_tombstones_remove_superseded_records() {
    let m = "https://a.mint";
    let records = vec![
        rec("r1", m, vec![p("x", 1), p("y", 2)], &[], 10),
        rec("r2", m, vec![p("y", 2), p("z", 4)], &["r1"], 20),
        rec("r3", "https://b.mint", vec![p("w", 8)], &[], 5),
    ];
    let got = reconcile_token_records(&records, m).unwrap();
    assert_eq!(secrets(&got), vec!["y", "z"]);
    assert_eq!(secrets(&reconcile_token_records(&records, "https://b.mint").unwrap()), vec!["w"]);
}

#[test]
fn older_tombstone_does_not_apply_and_ties_follow_list_order() {
    let m = "https://a.mint";
    let records = vec![
        rec("old", m, vec![p("a", 1)], &["new"], 10),
        rec("new", m, vec![p("b", 1), p("a", 1)], &[], 20),
    ];
    assert_eq!(secrets(&reconcile_token_records(&records, m).unwrap()), vec!["a", "b"]);
    let tied = vec![
        rec("first", m, vec![p("a", 1)], &[], 10),
        rec("second", m, vec![p("b", 1)], &["first"], 10),
    ];
    assert_eq!(secrets(&reconcile_token_records(&tied, m).unwrap()), vec!["b"]);
}

#[test]
fn reconcile_overflow_is_invalid_input() {
    let m = "https://a.mint";
    let records = vec![rec("r", m, vec![p("a", u64::MAX), p("b", 1)], &[], 1)];
    assert_eq!(reconcile_token_records(&records, m).unwrap_err().kind, ErrorKind::InvalidInput);
}
