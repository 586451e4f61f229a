use ecash_wallet::error::ErrorKind;
use ecash_wallet::proofs::{create_cashu_proof, CashuProof};
use ecash_wallet::store::{checked_sum, ProofStore};

fn mk(secret: &str, amount: u64) -> CashuProof {
    create_cashu_proof("009a1f293253e41e".to_string(), amount, secret.to_string(), "c".to_string())
}

#[test]
fn balance_follows_adds_and_removes() {
    let mut s = ProofStore::new();
    assert_eq!(s.balance(), 0);
    s.add(mk("a", 8)).unwrap();
    s.add(mk("b", 4)).unwrap();
    s.add(mk("c", 1)).unwrap();
    assert_eq!(s.balance(), 13);
    assert!(s.remove("b"));
    assert_eq!(s.balance(), 9);
    assert!(!s.remove("b"));
    assert_eq!(s.balance(), 9);
    let sum: u64 = s.unspent().iter().map(|p| p.amount).sum();
    assert_eq!(sum, s.balance());
}

#[test]
fn duplicate_secret_is_refused_and_store_unchanged() {
    let mut s = ProofStore::new();
    s.add(mk("a", 8)).unwrap();
    let e = s.add(mk("a", 16)).unwrap_err();
    assert_eq!(e.kind, ErrorKind::DuplicateProof);
    assert_eq!(s.balance(), 8);
    assert_eq!(s.len(), 1);
    assert_eq!(s.unspent()[0].amount, 8);
}

#[test]
fn overflowing_balance_is_refused() {
    let mut s = ProofStore::new();
    s.add(mk("a", u64::MAX)).unwrap();
    let e = s.add(mk("b", 1)).unwrap_err();
    assert_eq!(e.kind, ErrorKind::InvalidInput);
    assert_eq!(s.balance(), u64::MAX);
}

#[test]
fn prepare_send_picks_shortest_covering_prefix_without_change() {
    let mut s = ProofStore::new();
    s.add(mk("a", 2)).unwrap();
    s.add(mk("b", 4)).unwrap();
    s.add(mk("c", 8)).unwrap();
    let p = s.prepare_send(5).unwrap();
    assert_eq!(p.proofs.len(), 2);
    assert_eq!(p.amount, 5);
    assert_eq!(s.balance(), 14);
    assert_eq!(s.prepare_send(15).err().unwrap().kind, ErrorKind::InsufficientBalance);
    assert_eq!(s.prepare_send(0).err().unwrap().kind, ErrorKind::InvalidInput);
    s.take_prepared(&p).unwrap();
    assert_eq!(s.balance(), 8);
    assert_eq!(s.take_prepared(&p).unwrap_err().kind, ErrorKind::StateError);
}

#[test]
fn add_all_skips_held_secrets() {
    let mut s = ProofStore::new();
    s.add(mk("a", 2)).unwrap();
    let added = s.add_all(&vec![mk("a", 2), mk("b", 4), mk("b", 4)]).unwrap();
    assert_eq!(added, 4);
    assert_eq!(s.balance(), 6);
    assert_eq!(checked_sum(&vec![mk("x", u64::MAX), mk("y", 1)]), None);
    assert_eq!(checked_sum(&vec![mk("x", 3), mk("y", 1)]), Some(4));
}
