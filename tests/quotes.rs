use ecash_wallet::quote::{observe_melt_state, observe_mint_state, MeltQuoteState, MintQuoteState};

#[test]
fn issued_mint_quote_never_regresses() {
    for seen in [MintQuoteState::Unpaid, MintQuoteState::Paid, MintQuoteState::Issued] {
        assert_eq!(observe_mint_state(MintQuoteState::Issued, seen), MintQuoteState::Issued);
    }
    assert_eq!(observe_mint_state(MintQuoteState::Unpaid, MintQuoteState::Paid), MintQuoteState::Paid);
    assert_eq!(observe_mint_state(MintQuoteState::Paid, MintQuoteState::Unpaid), MintQuoteState::Paid);
}

#[test]
fn melt_quote_terminal_states_stay() {
    assert_eq!(observe_melt_state(MeltQuoteState::Paid, MeltQuoteState::Failed), MeltQuoteState::Paid);
    assert_eq!(observe_melt_state(MeltQuoteState::Failed, MeltQuoteState::Paid), MeltQuoteState::Failed);
    assert_eq!(observe_melt_state(MeltQuoteState::Unpaid, MeltQuoteState::Pending), MeltQuoteState::Pending);
    assert_eq!(observe_melt_state(MeltQuoteState::Pending, MeltQuoteState::Unpaid), MeltQuoteState::Pending);
    assert_eq!(observe_melt_state(MeltQuoteState::Pending, MeltQuoteState::Failed), MeltQuoteState::Failed);
}
