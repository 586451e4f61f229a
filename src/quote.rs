use vstd::prelude::*;

verus! {

/// Life of a request to receive value: `Unpaid`, then `Paid`, then `Issued`.
#[derive(Debug, Clone, Copy, PartialEq, Eq, Structural)]
pub enum MintQuoteState {
    Unpaid,
    Paid,
    Issued,
}

/// Life of a request to pay an invoice: `Unpaid`, then `Pending`, then `Paid` or `Failed`.
#[derive(Debug, Clone, Copy, PartialEq, Eq, Structural)]
pub enum MeltQuoteState {
    Unpaid,
    Pending,
    Paid,
    Failed,
}

/// How far a mint quote has advanced.
pub open spec fn mint_rank(s: MintQuoteState) -> nat {
    match s {
        MintQuoteState::Unpaid => 0,
        MintQuoteState::Paid => 1,
        MintQuoteState::Issued => 2,
    }
}

/// How far a melt quote has advanced; the two terminal states share a rank.
pub open spec fn melt_rank(s: MeltQuoteState) -> nat {
    match s {
        MeltQuoteState::Unpaid => 0,
        MeltQuoteState::Pending => 1,
        MeltQuoteState::Paid => 2,
        MeltQuoteState::Failed => 2,
    }
}

pub open spec fn melt_terminal(s: MeltQuoteState) -> bool {
    s == MeltQuoteState::Paid || s == MeltQuoteState::Failed
}

/// The state after observing `seen` in state `current`: a state that is not
/// further on is ignored.
pub open spec fn mint_after(current: MintQuoteState, seen: MintQuoteState) -> MintQuoteState {
    if mint_rank(seen) > mint_rank(current) {
        seen
    } else {
        current
    }
}

/// The state after observing `seen` in state `current`: a terminal state stays,
/// and a state that is not further on is ignored.
pub open spec fn melt_after(current: MeltQuoteState, seen: MeltQuoteState) -> MeltQuoteState {
    if !melt_terminal(current) && melt_rank(seen) > melt_rank(current) {
        seen
    } else {
        current
    }
}

pub fn mint_rank_of(s: MintQuoteState) -> (r: u8)
    ensures
        r as nat == mint_rank(s),
{
    match s {
        MintQuoteState::Unpaid => 0,
        MintQuoteState::Paid => 1,
        MintQuoteState::Issued => 2,
    }
}

pub fn melt_rank_of(s: MeltQuoteState) -> (r: u8)
    ensures
        r as nat == melt_rank(s),
{
    match s {
        MeltQuoteState::Unpaid => 0,
        MeltQuoteState::Pending => 1,
        MeltQuoteState::Paid => 2,
        MeltQuoteState::Failed => 2,
    }
}

/// Records an observed mint quote state, never moving backwards.
pub fn observe_mint_state(current: MintQuoteState, seen: MintQuoteState) -> (r: MintQuoteState)
    ensures
        r == mint_after(current, seen),
{
    if mint_rank_of(seen) > mint_rank_of(current) {
        seen
    } else {
        current
    }
}

/// Records an observed melt quote state, never moving backwards or out of a
/// terminal state.
pub fn observe_melt_state(current: MeltQuoteState, seen: MeltQuoteState) -> (r: MeltQuoteState)
    ensures
        r == melt_after(current, seen),
{
    let terminal = match current {
        MeltQuoteState::Paid | MeltQuoteState::Failed => true,
        _ => false,
    };
    if !terminal && melt_rank_of(seen) > melt_rank_of(current) {
        seen
    } else {
        current
    }
}

/// A mint quote never moves back: after any observation its rank is at least the
/// rank it had, and an `Issued` quote stays `Issued` whatever is observed.
pub proof fn lemma_mint_state_monotonic(current: MintQuoteState, seen: MintQuoteState)
    ensures
        mint_rank(mint_after(current, seen)) >= mint_rank(current),
        current == MintQuoteState::Issued ==> mint_after(current, seen) == MintQuoteState::Issued,
        mint_after(mint_after(current, seen), seen) == mint_after(current, seen),
{
}

/// A melt quote never moves back, and a terminal state is kept whatever is observed.
pub proof fn lemma_melt_state_monotonic(current: MeltQuoteState, seen: MeltQuoteState)
    ensures
        melt_rank(melt_after(current, seen)) >= melt_rank(current),
        melt_terminal(current) ==> melt_after(current, seen) == current,
        melt_after(melt_after(current, seen), seen) == melt_after(current, seen),
{
}

/// A request to receive `amount` through the payment network.
#[derive(Debug, Clone)]
pub struct MintQuote {
    pub id: String,
    pub request: String,
    pub amount: u64,
    pub unit: String,
    pub state: MintQuoteState,
}

/// A request to pay `invoice`, reserving `fee_reserve` for routing fees.
#[derive(Debug, Clone)]
pub struct MeltQuote {
    pub id: String,
    pub invoice: String,
    pub amount: u64,
    pub fee_reserve: u64,
    pub state: MeltQuoteState,
}

} // verus!
