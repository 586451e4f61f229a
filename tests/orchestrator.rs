use ecash_wallet::error::{ErrorKind, WalletError};
use ecash_wallet::instance::{MeltOutcome, SwapOutcome};
use ecash_wallet::mint::MintInfo;
use ecash_wallet::proofs::{create_cashu_proof, CashuProof};
use ecash_wallet::quote::{MeltQuoteState, MintQuoteState};
use ecash_wallet::wallet::{AddMintOutcome, MeltQuoteResponse, MintDescriptor, MultiMintWallet, QuoteResponse};

const MINT: &str = "https://example.mint";

fn info() -> MintInfo {
    MintInfo {
        name: Some("example".to_string()),
        version: None,
        description: None,
        description_long: None,
        contact: None,
        motd: None,
        icon_url: None,
        urls: None,
        nuts: None,
        public_key: None,
        additional_info: None,
    }
}

fn reachable() -> Result<MintDescriptor, WalletError> {
    Ok(MintDescriptor { info: info(), active_keyset_id: Some("009a1f293253e41e".to_string()), persisted: true })
}

fn unreachable_mint() -> Result<MintDescriptor, WalletError> {
    Err(WalletError { kind: ErrorKind::NetworkFailure, detail: "timeout".to_string() })
}

fn proofs(tag: &str, amounts: &[u64]) -> Vec<CashuProof> {
    amounts
        .iter()
        .enumerate()
        .map(|(i, a)| create_cashu_proof("009a1f293253e41e".to_string(), *a, format!("{tag}-{i}"), "c".to_string()))
        .collect()
}

fn wallet() -> MultiMintWallet {
    MultiMintWallet::new("sat", &"11".repeat(64)).unwrap()
}

fn balance_of(w: &MultiMintWallet, key: &str) -> u64 {
    w.get_all_balances().into_iter().find(|(k, _)| k == key).map(|(_, b)| b).unwrap()
}

/// Funds `w` at `MINT` through a paid mint quote.
fn fund(w: &mut MultiMintWallet, tag: &str, amounts: &[u64], now: u64) -> u64 {
    let total: u64 = amounts.iter().sum();
    let id = format!("q-{tag}");
    w.create_mint_quote(MINT, total, Ok(QuoteResponse { id: id.clone(), request: "lnbc...".to_string() })).unwrap();
    w.check_mint_quote(MINT, &id, Ok(MintQuoteState::Paid)).unwrap();
    w.redeem_mint_quote(MINT, &id, Ok(proofs(tag, amounts)), now).unwrap()
}

#[test]
fn failed_probe_leaves_no_mint() {
    let mut w = wallet();
    let e = w.add_mint(MINT, unreachable_mint()).unwrap_err();
    assert_eq!(e.kind, ErrorKind::NetworkFailure);
    assert!(!w.has_mint(MINT));
    assert!(w.list_mints().is_empty());
    let not_saved = Ok(MintDescriptor { info: info(), active_keyset_id: Some("k".to_string()), persisted: false });
    assert_eq!(w.add_mint(MINT, not_saved).unwrap_err().kind, ErrorKind::StateError);
    assert!(!w.has_mint(MINT));
    let no_keyset = Ok(MintDescriptor { info: info(), active_keyset_id: None, persisted: true });
    assert_eq!(w.add_mint(MINT, no_keyset).unwrap_err().kind, ErrorKind::ProtocolError);
    assert!(!w.has_mint(MINT));
}

#[test]
fn add_list_and_remove_mints() {
    let mut w = wallet();
    assert_eq!(w.add_mint(MINT, reachable()).unwrap(), AddMintOutcome::Added);
    assert_eq!(w.add_mint("https://example.mint/", unreachable_mint()).unwrap(), AddMintOutcome::AlreadyPresent);
    assert_eq!(w.add_mint("https://abc.onion", reachable()).unwrap(), AddMintOutcome::Added);
    assert_eq!(w.list_mints(), vec!["https://example.mint:sat", "http://abc.onion:sat"]);
    assert!(w.has_mint("http://abc.onion"));
    w.remove_mint("https://abc.onion").unwrap();
    assert!(!w.has_mint("http://abc.onion"));
    assert_eq!(w.remove_mint("https://abc.onion").unwrap_err().kind, ErrorKind::NotFound);
    assert_eq!(w.remove_mint("").unwrap_err().kind, ErrorKind::InvalidInput);
    let info = w.get_wallet_info(MINT).unwrap();
    assert_eq!(info.balance, 0);
    assert_eq!(info.unit, "sat");
    assert_eq!(info.active_keyset_id, "009a1f293253e41e");
}

#[test]
fn send_and_receive_between_wallets() {
    let mut a = wallet();
    a.add_mint(MINT, reachable()).unwrap();
    assert_eq!(fund(&mut a, "a", &[512, 256, 128, 64, 32, 8], 1), 1000);
    assert_eq!(balance_of(&a, "https://example.mint:sat"), 1000);

    let prepared = a.prepare_send(MINT, 400).unwrap();
    assert_eq!(balance_of(&a, "https://example.mint:sat"), 1000);
    let swap = SwapOutcome { send: proofs("s", &[256, 128, 16]), change: proofs("c", &[64, 32, 16]) };
    let token = a.confirm_send(MINT, &prepared, Some("gift".to_string()), Ok(swap), 2).unwrap();
    assert_eq!(token.proofs.iter().map(|p| p.amount).sum::<u64>(), 400);
    assert_eq!(token.mint_url, "https://example.mint");
    assert_eq!(balance_of(&a, "https://example.mint:sat"), 600);
    let txs = a.get_all_transactions();
    let outgoing: Vec<_> = txs.iter().filter(|t| t.direction == "outgoing").collect();
    assert_eq!(outgoing.len(), 1);
    assert_eq!(outgoing[0].amount, 400);

    let mut b = wallet();
    assert!(!b.has_mint(MINT));
    let received = b.receive(&token, Some(reachable()), Ok(proofs("b", &[256, 128, 16])), 3).unwrap();
    assert_eq!(received, 400);
    assert!(b.has_mint(MINT));
    assert_eq!(balance_of(&b, "https://example.mint:sat"), 400);
}

#[test]
fn failed_receive_registers_nothing() {
    let mut a = wallet();
    a.add_mint(MINT, reachable()).unwrap();
    fund(&mut a, "a", &[8, 4], 1);
    let prepared = a.prepare_send(MINT, 8).unwrap();
    let token = a
        .confirm_send(MINT, &prepared, None, Ok(SwapOutcome { send: proofs("s", &[8]), change: vec![] }), 2)
        .unwrap();
    let mut b = wallet();
    let spent = Err(WalletError { kind: ErrorKind::ProtocolError, detail: "already spent".to_string() });
    assert_eq!(b.receive(&token, Some(reachable()), spent, 3).unwrap_err().kind, ErrorKind::ProtocolError);
    assert!(!b.has_mint(MINT));
    assert_eq!(b.receive(&token, Some(unreachable_mint()), Ok(proofs("b", &[8])), 3).unwrap_err().kind, ErrorKind::NetworkFailure);
    assert!(!b.has_mint(MINT));
    assert_eq!(b.receive(&token, None, Ok(proofs("b", &[8])), 3).unwrap_err().kind, ErrorKind::StateError);
}

#[test]
fn failed_swap_leaves_proofs() {
    let mut a = wallet();
    a.add_mint(MINT, reachable()).unwrap();
    fund(&mut a, "a", &[8, 4], 1);
    let prepared = a.prepare_send(MINT, 5).unwrap();
    let down = Err(WalletError { kind: ErrorKind::NetworkFailure, detail: "timeout".to_string() });
    assert_eq!(a.confirm_send(MINT, &prepared, None, down, 2).unwrap_err().kind, ErrorKind::NetworkFailure);
    let short = SwapOutcome { send: proofs("s", &[4]), change: vec![] };
    assert_eq!(a.confirm_send(MINT, &prepared, None, Ok(short), 2).unwrap_err().kind, ErrorKind::ProtocolError);
    assert_eq!(balance_of(&a, "https://example.mint:sat"), 12);
    assert_eq!(a.get_all_transactions().len(), 1);
}

#[test]
fn mint_quote_lifecycle() {
    let mut w = wallet();
    w.add_mint(MINT, reachable()).unwrap();
    let q = w
        .create_mint_quote(MINT, 500, Ok(QuoteResponse { id: "q1".to_string(), request: "lnbc5u1...".to_string() }))
        .unwrap();
    assert_eq!(q.id, "q1");
    assert_eq!(q.request, "lnbc5u1...");
    assert_eq!(q.amount, 500);
    assert_eq!(q.state, MintQuoteState::Unpaid);
    assert_eq!(w.redeem_mint_quote(MINT, "q1", Ok(proofs("m", &[500])), 1).unwrap_err().kind, ErrorKind::ProtocolError);
    assert_eq!(w.check_mint_quote(MINT, "q1", Ok(MintQuoteState::Paid)).unwrap(), MintQuoteState::Paid);
    assert_eq!(w.redeem_mint_quote(MINT, "q1", Ok(proofs("m", &[256, 244])), 1).unwrap(), 500);
    assert_eq!(balance_of(&w, "https://example.mint:sat"), 500);
    assert_eq!(w.check_mint_quote(MINT, "q1", Ok(MintQuoteState::Paid)).unwrap(), MintQuoteState::Issued);
    assert_eq!(w.redeem_mint_quote(MINT, "q1", Ok(proofs("n", &[500])), 2).unwrap(), 0);
    assert_eq!(balance_of(&w, "https://example.mint:sat"), 500);
    assert_eq!(w.check_mint_quote(MINT, "zz", Ok(MintQuoteState::Paid)).unwrap_err().kind, ErrorKind::NotFound);
}

#[test]
fn melt_spends_only_when_paid() {
    let mut w = wallet();
    w.add_mint(MINT, reachable()).unwrap();
    fund(&mut w, "a", &[64, 32, 8], 1);
    let q = w
        .create_melt_quote(MINT, "lnbc...", Ok(MeltQuoteResponse { id: "m1".to_string(), amount: 60, fee_reserve: 2 }))
        .unwrap();
    assert_eq!(q.state, MeltQuoteState::Unpaid);
    let prepared = w.prepare_melt(MINT, "m1").unwrap();
    assert_eq!(prepared.amount, 62);
    let pending = MeltOutcome { state: MeltQuoteState::Pending, change: vec![] };
    assert_eq!(w.finish_melt(MINT, "m1", &prepared, Ok(pending), 2).unwrap(), MeltQuoteState::Pending);
    assert_eq!(balance_of(&w, "https://example.mint:sat"), 104);
    let paid = MeltOutcome { state: MeltQuoteState::Paid, change: proofs("chg", &[3]) };
    assert_eq!(w.finish_melt(MINT, "m1", &prepared, Ok(paid), 3).unwrap(), MeltQuoteState::Paid);
    assert_eq!(balance_of(&w, "https://example.mint:sat"), 104 - 64 + 3);
    let txs = w.get_all_transactions();
    let last = txs.last().unwrap();
    assert_eq!(last.direction, "outgoing");
    assert_eq!(last.amount, 60);
    assert_eq!(last.fee, 1);
}

#[test]
fn transactions_are_ordered_by_time_across_mints() {
    let mut w = wallet();
    w.add_mint(MINT, reachable()).unwrap();
    w.add_mint("https://other.mint", reachable()).unwrap();
    fund(&mut w, "a", &[4], 30);
    w.create_mint_quote("https://other.mint", 2, Ok(QuoteResponse { id: "o".to_string(), request: "r".to_string() })).unwrap();
    w.check_mint_quote("https://other.mint", "o", Ok(MintQuoteState::Paid)).unwrap();
    w.redeem_mint_quote("https://other.mint", "o", Ok(proofs("o", &[2])), 10).unwrap();
    let times: Vec<u64> = w.get_all_transactions().iter().map(|t| t.timestamp).collect();
    assert_eq!(times, vec![10, 30]);
    let balances = w.get_all_balances();
    assert_eq!(balances.len(), 2);
    assert_eq!(balances[1], ("https://other.mint:sat".to_string(), 2));
}

#[test]
fn malformed_seed_is_invalid_input() {
    assert_eq!(MultiMintWallet::new("sat", "abcd").err().unwrap().kind, ErrorKind::InvalidInput);
}

#[test]
fn restore_skips_mints_that_fail_to_reload() {
    let mut w = wallet();
    let reloads = vec![
        ("https://a.mint".to_string(), reachable()),
        ("https://down.mint".to_string(), unreachable_mint()),
        ("https://b.mint/".to_string(), reachable()),
        ("".to_string(), reachable()),
    ];
    assert_eq!(w.restore_mints(reloads), 2);
    assert!(w.has_mint("https://a.mint"));
    assert!(w.has_mint("https://b.mint"));
    assert!(!w.has_mint("https://down.mint"));
    assert_eq!(w.list_mints().len(), 2);
}

#[test]
fn sync_replaces_the_mirrored_proofs() {
    let mut w = wallet();
    w.add_mint(MINT, reachable()).unwrap();
    fund(&mut w, "a", &[8, 4], 1);
    assert_eq!(w.sync_proofs(MINT, &proofs("s", &[2, 2, 1])).unwrap(), 5);
    assert_eq!(balance_of(&w, "https://example.mint:sat"), 5);
    assert_eq!(w.get_wallet_proofs(MINT).unwrap().len(), 3);
    assert_eq!(w.get_all_transactions().len(), 1);
    assert_eq!(w.sync_proofs("https://other.mint", &vec![]).unwrap_err().kind, ErrorKind::NotFound);
    let e = w.sync_proofs(MINT, &proofs("o", &[u64::MAX, 1])).unwrap_err();
    assert_eq!(e.kind, ErrorKind::InvalidInput);
    assert_eq!(balance_of(&w, "https://example.mint:sat"), 5);
}
