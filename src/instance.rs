use vstd::prelude::*;
use crate::error::{ErrorKind, WalletError, fails_with};
use crate::ledger::{TransactionInfo, new_transaction};
use crate::mint::MintInfo;
use crate::proofs::{CashuProof, views, sum_amounts};
use crate::quote::{
    MintQuote, MintQuoteState, MeltQuote, MeltQuoteState, observe_mint_state, observe_melt_state,
    mint_after, melt_after,
};
use crate::store::{ProofStore, PreparedSend, merged, checked_sum};

verus! {

/// A transferable bundle of proofs of one mint and unit.
#[derive(Debug)]
pub struct Token {
    pub mint_url: String,
    pub unit: String,
    pub proofs: Vec<CashuProof>,
    pub memo: Option<String>,
}

/// What the mint returns for a send: the proofs handed over, and the change.
#[derive(Debug)]
pub struct SwapOutcome {
    pub send: Vec<CashuProof>,
    pub change: Vec<CashuProof>,
}

/// What the mint returns for a melt: the payment's state, and the change.
#[derive(Debug)]
pub struct MeltOutcome {
    pub state: MeltQuoteState,
    pub change: Vec<CashuProof>,
}

/// Summary of one wallet.
#[derive(Debug, Clone)]
pub struct WalletInfo {
    pub mint_url: String,
    pub unit: String,
    pub balance: u64,
    pub active_keyset_id: String,
}

/// One wallet, bound to a single mint and unit: its proofs, ledger and quotes.
pub struct WalletInstance {
    pub mint_url: String,
    pub unit: String,
    pub active_keyset_id: String,
    pub info: MintInfo,
    pub store: ProofStore,
    pub transactions: Vec<TransactionInfo>,
    pub mint_quotes: Vec<MintQuote>,
    pub melt_quotes: Vec<MeltQuote>,
}

/// The position of the first mint quote with id `id`.
pub open spec fn mint_quote_at(qs: Seq<MintQuote>, id: Seq<char>, i: int) -> bool {
    0 <= i < qs.len() && qs[i].id@ == id && forall|j: int| 0 <= j < i ==> #[trigger] qs[j].id@ != id
}

/// The position of the first melt quote with id `id`.
pub open spec fn melt_quote_at(qs: Seq<MeltQuote>, id: Seq<char>, i: int) -> bool {
    0 <= i < qs.len() && qs[i].id@ == id && forall|j: int| 0 <= j < i ==> #[trigger] qs[j].id@ != id
}

pub open spec fn has_mint_quote(qs: Seq<MintQuote>, id: Seq<char>) -> bool {
    exists|i: int| 0 <= i < qs.len() && #[trigger] qs[i].id@ == id
}

pub open spec fn has_melt_quote(qs: Seq<MeltQuote>, id: Seq<char>) -> bool {
    exists|i: int| 0 <= i < qs.len() && #[trigger] qs[i].id@ == id
}

fn find_mint_quote(qs: &Vec<MintQuote>, id: &str) -> (r: Option<usize>)
    ensures
        r is None <==> !has_mint_quote(qs@, id@),
        r is Some ==> mint_quote_at(qs@, id@, r->0 as int),
{
    let wanted = String::from_str(id);
    let mut i: usize = 0;
    while i < qs.len()
        invariant
            i <= qs.len(),
            wanted@ == id@,
            forall|j: int| 0 <= j < i ==> #[trigger] qs@[j].id@ != id@,
        decreases qs.len() - i,
    {
        if qs[i].id == wanted {
            return Some(i);
        }
        i += 1;
    }
    None
}

pub proof fn lemma_mint_quote_at_unique(qs: Seq<MintQuote>, id: Seq<char>, i: int, k: int)
    requires
        mint_quote_at(qs, id, i),
        mint_quote_at(qs, id, k),
    ensures
        i == k,
{
    if i < k {
        assert(qs[i].id@ != id);
    } else if k < i {
        assert(qs[k].id@ != id);
    }
}

fn find_melt_quote(qs: &Vec<MeltQuote>, id: &str) -> (r: Option<usize>)
    ensures
        r is None <==> !has_melt_quote(qs@, id@),
        r is Some ==> melt_quote_at(qs@, id@, r->0 as int),
{
    let wanted = String::from_str(id);
    let mut i: usize = 0;
    while i < qs.len()
        invariant
            i <= qs.len(),
            wanted@ == id@,
            forall|j: int| 0 <= j < i ==> #[trigger] qs@[j].id@ != id@,
        decreases qs.len() - i,
    {
        if qs[i].id == wanted {
            return Some(i);
        }
        i += 1;
    }
    None
}

fn copy_proofs(v: &Vec<CashuProof>) -> (r: Vec<CashuProof>)
    ensures
        views(r@) == views(v@),
{
    let mut out: Vec<CashuProof> = Vec::new();
    let mut i: usize = 0;
    while i < v.len()
        invariant
            i <= v.len(),
            views(out@) =~= views(v@).take(i as int),
        decreases v.len() - i,
    {
        let p = v[i].copied();
        proof {
            crate::store::lemma_views_push(out@, p);
        }
        out.push(p);
        i += 1;
    }
    assert(views(v@).take(i as int) =~= views(v@));
    out
}

/// Two wallets of the same mint, unit and keyset.
pub open spec fn same_identity(a: WalletInstance, b: WalletInstance) -> bool {
    a.mint_url == b.mint_url && a.unit == b.unit && a.active_keyset_id == b.active_keyset_id
}

impl WalletInstance {
    pub open spec fn wf(&self) -> bool {
        self.store.wf()
    }

    /// The balance: the sum of the amounts of the proofs held.
    pub open spec fn balance_spec(&self) -> nat {
        sum_amounts(self.store@)
    }

    /// A wallet with no proofs, ledger entries or quotes.
    pub fn new(mint_url: String, unit: String, active_keyset_id: String, info: MintInfo) -> (r:
        WalletInstance)
        ensures
            r.wf(),
            r.mint_url == mint_url,
            r.unit == unit,
            r.active_keyset_id == active_keyset_id,
            r.store@.len() == 0,
            r.transactions@.len() == 0,
            r.mint_quotes@.len() == 0,
            r.melt_quotes@.len() == 0,
    {
        WalletInstance {
            mint_url,
            unit,
            active_keyset_id,
            info,
            store: ProofStore::new(),
            transactions: Vec::new(),
            mint_quotes: Vec::new(),
            melt_quotes: Vec::new(),
        }
    }

    pub fn info(&self) -> (r: WalletInfo)
        requires
            self.wf(),
        ensures
            r.mint_url == self.mint_url,
            r.unit == self.unit,
            r.balance as nat == self.balance_spec(),
            r.active_keyset_id == self.active_keyset_id,
    {
        WalletInfo {
            mint_url: self.mint_url.clone(),
            unit: self.unit.clone(),
            balance: self.store.balance(),
            active_keyset_id: self.active_keyset_id.clone(),
        }
    }

    /// Completes a send prepared on this wallet, given the mint's answer: the
    /// chosen proofs leave the store, the change joins it, an outgoing entry is
    /// appended and the token for the sent proofs is returned. A send that does
    /// not add up to the amount, or change past the proofs' value, is
    /// `ProtocolError`; proofs that are no longer held give `StateError`. On any
    /// error nothing changes.
    pub fn confirm_send(
        &mut self,
        prepared: &PreparedSend,
        memo: Option<String>,
        swap: SwapOutcome,
        now: u64,
        tx_id: String,
    ) -> (r: Result<Token, WalletError>)
        requires
            old(self).wf(),
        ensures
            final(self).wf(),
            same_identity(*old(self), *final(self)),
            r is Err ==> *final(self) == *old(self),
            r is Ok <==> {
                &&& sum_amounts(views(swap.send@)) == prepared.amount
                &&& sum_amounts(views(swap.send@)) + sum_amounts(views(swap.change@))
                    <= sum_amounts(views(prepared.proofs@))
                &&& prepared.proofs@.len() <= old(self).store@.len()
                &&& old(self).store@.take(prepared.proofs@.len() as int) == views(prepared.proofs@)
            },
            r is Ok ==> {
                let t = r->Ok_0;
                let fee = sum_amounts(views(prepared.proofs@)) - sum_amounts(views(swap.send@))
                    - sum_amounts(views(swap.change@));
                &&& final(self).store@ == merged(
                    old(self).store@.skip(prepared.proofs@.len() as int),
                    views(swap.change@),
                )
                &&& final(self).transactions@.len() == old(self).transactions@.len() + 1
                &&& final(self).transactions@.take(old(self).transactions@.len() as int)
                    == old(self).transactions@
                &&& final(self).transactions@.last().direction@ == "outgoing"@
                &&& final(self).transactions@.last().amount == prepared.amount
                &&& final(self).transactions@.last().fee == fee
                &&& final(self).transactions@.last().timestamp == now
                &&& final(self).transactions@.last().mint_url == old(self).mint_url
                &&& final(self).transactions@.last().transaction_type matches Some(k) && k@
                    == "ecash_send"@
                &&& t.mint_url == old(self).mint_url
                &&& t.unit == old(self).unit
                &&& views(t.proofs@) == views(swap.send@)
                &&& t.memo == memo
                &&& final(self).mint_quotes == old(self).mint_quotes
                &&& final(self).melt_quotes == old(self).melt_quotes
            },
    {
        proof {
            crate::store::lemma_store_bounded(&self.store);
            if prepared.proofs@.len() <= self.store@.len() {
                crate::proofs::lemma_sum_split(self.store@, prepared.proofs@.len() as int);
            }
        }
        let sent = match checked_sum(&swap.send) {
            Some(s) => s,
            None => {
                return Err(WalletError::new(ErrorKind::ProtocolError, "sent amounts overflow"));
            },
        };
        let change = match checked_sum(&swap.change) {
            Some(c) => c,
            None => {
                return Err(WalletError::new(ErrorKind::ProtocolError, "change amounts overflow"));
            },
        };
        let spent = match checked_sum(&prepared.proofs) {
            Some(s) => s,
            None => {
                return Err(WalletError::new(ErrorKind::ProtocolError, "spent amounts overflow"));
            },
        };
        if sent != prepared.amount {
            return Err(WalletError::new(ErrorKind::ProtocolError, "mint sent a wrong amount"));
        }
        if change > spent || sent > spent - change {
            return Err(WalletError::new(ErrorKind::ProtocolError, "mint returned too much change"));
        }
        let ghost before = self.store@;
        match self.store.take_prepared(prepared) {
            Ok(()) => {},
            Err(e) => {
                return Err(e);
            },
        }
        proof {
            crate::proofs::lemma_sum_split(before, prepared.proofs@.len() as int);
        }
        let added = self.store.add_all(&swap.change);
        let ghost n = self.transactions@.len();
        let ghost old_tx = self.transactions@;
        let tx = new_transaction(
            tx_id,
            false,
            "ecash_send",
            prepared.amount,
            spent - change - sent,
            crate::text::copy_opt(&memo),
            now,
            self.mint_url.clone(),
        );
        self.transactions.push(tx);
        assert(self.transactions@.take(n as int) =~= old_tx);
        Ok(Token {
            mint_url: self.mint_url.clone(),
            unit: self.unit.clone(),
            proofs: copy_proofs(&swap.send),
            memo,
        })
    }

    /// Stores the proofs that the mint issued for a received token, skipping any
    /// already held, and appends an incoming entry of the amount added. Where the
    /// balance would overflow nothing changes and the result is `InvalidInput`.
    pub fn receive_proofs(&mut self, proofs: &Vec<CashuProof>, now: u64, tx_id: String) -> (r:
        Result<u64, WalletError>)
        requires
            old(self).wf(),
        ensures
            final(self).wf(),
            same_identity(*old(self), *final(self)),
            r is Err ==> *final(self) == *old(self) && fails_with(r, ErrorKind::InvalidInput),
            r is Ok <==> sum_amounts(old(self).store@) + sum_amounts(views(proofs@)) <= u64::MAX,
            r is Ok ==> {
                &&& final(self).store@ == merged(old(self).store@, views(proofs@))
                &&& r->Ok_0 == final(self).balance_spec() - old(self).balance_spec()
                &&& final(self).transactions@.len() == old(self).transactions@.len() + 1
                &&& final(self).transactions@.take(old(self).transactions@.len() as int)
                    == old(self).transactions@
                &&& final(self).transactions@.last().direction@ == "incoming"@
                &&& final(self).transactions@.last().amount == r->Ok_0
                &&& final(self).transactions@.last().timestamp == now
                &&& final(self).transactions@.last().mint_url == old(self).mint_url
                &&& final(self).transactions@.last().transaction_type matches Some(k) && k@
                    == "ecash_receive"@
                &&& final(self).mint_quotes == old(self).mint_quotes
                &&& final(self).melt_quotes == old(self).melt_quotes
            },
    {
        let amount = match self.store.add_all(proofs) {
            Ok(a) => a,
            Err(e) => {
                return Err(e);
            },
        };
        let ghost n = self.transactions@.len();
        let ghost old_tx = self.transactions@;
        let tx = new_transaction(
            tx_id,
            true,
            "ecash_receive",
            amount,
            0,
            None,
            now,
            self.mint_url.clone(),
        );
        self.transactions.push(tx);
        assert(self.transactions@.take(n as int) =~= old_tx);
        Ok(amount)
    }

    /// Records a new mint quote in state `Unpaid`; an id already recorded is
    /// `StateError`.
    pub fn add_mint_quote(&mut self, id: String, request: String, amount: u64) -> (r: Result<
        MintQuote,
        WalletError,
    >)
        requires
            old(self).wf(),
        ensures
            final(self).wf(),
            same_identity(*old(self), *final(self)),
            r is Err <==> has_mint_quote(old(self).mint_quotes@, id@),
            r is Err ==> *final(self) == *old(self) && fails_with(r, ErrorKind::StateError),
            r is Ok ==> {
                let q = r->Ok_0;
                &&& q.id == id && q.request == request && q.amount == amount
                &&& q.unit == old(self).unit && q.state == MintQuoteState::Unpaid
                &&& final(self).mint_quotes@ == old(self).mint_quotes@.push(q)
                &&& final(self).store == old(self).store
                &&& final(self).transactions == old(self).transactions
                &&& final(self).melt_quotes == old(self).melt_quotes
            },
    {
        if find_mint_quote(&self.mint_quotes, id.as_str()).is_some() {
            return Err(WalletError::new(ErrorKind::StateError, "quote already recorded"));
        }
        let q = MintQuote {
            id: id.clone(),
            request: request.clone(),
            amount,
            unit: self.unit.clone(),
            state: MintQuoteState::Unpaid,
        };
        let q2 = MintQuote { id, request, amount, unit: self.unit.clone(), state: MintQuoteState::Unpaid };
        self.mint_quotes.push(q);
        Ok(q2)
    }

    /// Records what the mint reports of a quote; the state never moves back. An
    /// unknown quote is `NotFound`.
    pub fn observe_mint_quote(&mut self, id: &str, seen: MintQuoteState) -> (r: Result<
        MintQuoteState,
        WalletError,
    >)
        requires
            old(self).wf(),
        ensures
            final(self).wf(),
            same_identity(*old(self), *final(self)),
            r is Err <==> !has_mint_quote(old(self).mint_quotes@, id@),
            r is Err ==> *final(self) == *old(self) && fails_with(r, ErrorKind::NotFound),
            r is Ok ==> exists|i: int|
                mint_quote_at(old(self).mint_quotes@, id@, i) && r->Ok_0 == mint_after(
                    old(self).mint_quotes@[i].state,
                    seen,
                ) && final(self).mint_quotes@[i].state == r->Ok_0 && final(self).mint_quotes@.len()
                    == old(self).mint_quotes@.len(),
            r is Ok ==> final(self).store == old(self).store && final(self).transactions
                == old(self).transactions,
    {
        let i = match find_mint_quote(&self.mint_quotes, id) {
            Some(i) => i,
            None => {
                return Err(WalletError::new(ErrorKind::NotFound, "unknown quote"));
            },
        };
        let mut q = self.mint_quotes.remove(i);
        let s = observe_mint_state(q.state, seen);
        q.state = s;
        self.mint_quotes.insert(i, q);
        Ok(s)
    }

    /// Redeems a paid quote with the proofs the mint issued: they join the store,
    /// an incoming entry is appended and the quote becomes `Issued`. An `Issued`
    /// quote is left as it is and gives 0; an unpaid one is `ProtocolError`, as
    /// are issued proofs that do not sum to the quote's amount. On error nothing
    /// changes.
    pub fn redeem_mint_quote(
        &mut self,
        id: &str,
        issued: &Vec<CashuProof>,
        now: u64,
        tx_id: String,
    ) -> (r: Result<u64, WalletError>)
        requires
            old(self).wf(),
        ensures
            final(self).wf(),
            same_identity(*old(self), *final(self)),
            !has_mint_quote(old(self).mint_quotes@, id@) ==> fails_with(r, ErrorKind::NotFound),
            r is Err ==> *final(self) == *old(self),
            forall|i: int| #[trigger]
                mint_quote_at(old(self).mint_quotes@, id@, i) ==> {
                    let q = old(self).mint_quotes@[i];
                    &&& q.state == MintQuoteState::Issued ==> r == Ok::<u64, WalletError>(0)
                        && *final(self) == *old(self)
                    &&& q.state == MintQuoteState::Unpaid ==> fails_with(
                        r,
                        ErrorKind::ProtocolError,
                    )
                    &&& q.state == MintQuoteState::Paid && sum_amounts(views(issued@)) != q.amount
                        ==> fails_with(r, ErrorKind::ProtocolError)
                    &&& q.state == MintQuoteState::Paid && sum_amounts(views(issued@)) == q.amount
                        && sum_amounts(old(self).store@) + q.amount <= u64::MAX ==> r is Ok
                    &&& q.state == MintQuoteState::Paid && r is Ok ==> {
                        &&& final(self).store@ == merged(old(self).store@, views(issued@))
                        &&& r->Ok_0 == final(self).balance_spec() - old(self).balance_spec()
                        &&& final(self).mint_quotes@[i].state == MintQuoteState::Issued
                        &&& final(self).mint_quotes@.len() == old(self).mint_quotes@.len()
                        &&& final(self).transactions@.len() == old(self).transactions@.len() + 1
                        &&& final(self).transactions@.take(old(self).transactions@.len() as int)
                            == old(self).transactions@
                        &&& final(self).transactions@.last().direction@ == "incoming"@
                        &&& final(self).transactions@.last().amount == r->Ok_0
                        &&& final(self).transactions@.last().mint_url == old(self).mint_url
                    }
                },
    {
        let i = match find_mint_quote(&self.mint_quotes, id) {
            Some(i) => i,
            None => {
                return Err(WalletError::new(ErrorKind::NotFound, "unknown quote"));
            },
        };
        proof {
            assert forall|k: int| #[trigger] mint_quote_at(self.mint_quotes@, id@, k) implies k
                == i by {
                if k < i {
                    assert(self.mint_quotes@[k].id@ != id@);
                } else if k > i {
                    assert(self.mint_quotes@[i as int].id@ != id@);
                }
            }
        }
        match self.mint_quotes[i].state {
            MintQuoteState::Issued => {
                return Ok(0);
            },
            MintQuoteState::Unpaid => {
                return Err(WalletError::new(ErrorKind::ProtocolError, "quote is not paid"));
            },
            MintQuoteState::Paid => {},
        }
        match checked_sum(issued) {
            Some(s) => {
                if s != self.mint_quotes[i].amount {
                    return Err(
                        WalletError::new(ErrorKind::ProtocolError, "issued amount differs"),
                    );
                }
            },
            None => {
                return Err(WalletError::new(ErrorKind::ProtocolError, "issued amounts overflow"));
            },
        }
        let amount = match self.store.add_all(issued) {
            Ok(a) => a,
            Err(e) => {
                return Err(e);
            },
        };
        let mut q = self.mint_quotes.remove(i);
        q.state = MintQuoteState::Issued;
        self.mint_quotes.insert(i, q);
        let ghost n = self.transactions@.len();
        let ghost old_tx = self.transactions@;
        let tx = new_transaction(tx_id, true, "mint", amount, 0, None, now, self.mint_url.clone());
        self.transactions.push(tx);
        assert(self.transactions@.take(n as int) =~= old_tx);
        Ok(amount)
    }

    /// The state of the quote with id `id`, if any.
    pub fn mint_quote_state(&self, id: &str) -> (r: Option<MintQuoteState>)
        ensures
            r is None <==> !has_mint_quote(self.mint_quotes@, id@),
            r is Some ==> exists|i: int|
                mint_quote_at(self.mint_quotes@, id@, i) && self.mint_quotes@[i].state == r->0,
    {
        match find_mint_quote(&self.mint_quotes, id) {
            Some(i) => Some(self.mint_quotes[i].state),
            None => None,
        }
    }

    /// Records a new melt quote in state `Unpaid`; an id already recorded is
    /// `StateError`.
    pub fn add_melt_quote(
        &mut self,
        id: String,
        invoice: String,
        amount: u64,
        fee_reserve: u64,
    ) -> (r: Result<MeltQuote, WalletError>)
        requires
            old(self).wf(),
        ensures
            final(self).wf(),
            same_identity(*old(self), *final(self)),
            r is Err <==> has_melt_quote(old(self).melt_quotes@, id@),
            r is Err ==> *final(self) == *old(self) && fails_with(r, ErrorKind::StateError),
            r is Ok ==> {
                let q = r->Ok_0;
                &&& q.id == id && q.invoice == invoice && q.amount == amount
                &&& q.fee_reserve == fee_reserve && q.state == MeltQuoteState::Unpaid
                &&& final(self).melt_quotes@ == old(self).melt_quotes@.push(q)
                &&& final(self).store == old(self).store
                &&& final(self).transactions == old(self).transactions
                &&& final(self).mint_quotes == old(self).mint_quotes
            },
    {
        if find_melt_quote(&self.melt_quotes, id.as_str()).is_some() {
            return Err(WalletError::new(ErrorKind::StateError, "quote already recorded"));
        }
        let q = MeltQuote {
            id: id.clone(),
            invoice: invoice.clone(),
            amount,
            fee_reserve,
            state: MeltQuoteState::Unpaid,
        };
        self.melt_quotes.push(q);
        Ok(MeltQuote { id, invoice, amount, fee_reserve, state: MeltQuoteState::Unpaid })
    }

    /// Chooses proofs that cover a melt quote's amount and fee reserve; nothing
    /// changes. An unknown quote is `NotFound`, one that is not `Unpaid` is
    /// `StateError`, and a total past `u64::MAX` is `InvalidInput`.
    pub fn prepare_melt(&self, id: &str) -> (r: Result<PreparedSend, WalletError>)
        requires
            self.wf(),
        ensures
            !has_melt_quote(self.melt_quotes@, id@) ==> fails_with(r, ErrorKind::NotFound),
            r is Ok ==> exists|i: int| melt_quote_at(self.melt_quotes@, id@, i),
            forall|i: int| #[trigger]
                melt_quote_at(self.melt_quotes@, id@, i) ==> {
                    let q = self.melt_quotes@[i];
                    &&& q.state != MeltQuoteState::Unpaid ==> fails_with(r, ErrorKind::StateError)
                    &&& r is Ok ==> {
                        let p = r->Ok_0;
                        &&& p.amount == q.amount + q.fee_reserve
                        &&& views(p.proofs@) == self.store@.take(p.proofs@.len() as int)
                        &&& sum_amounts(views(p.proofs@)) >= p.amount
                    }
                    &&& q.state == MeltQuoteState::Unpaid && q.amount + q.fee_reserve
                        > sum_amounts(self.store@) ==> r is Err
                    &&& q.state == MeltQuoteState::Unpaid && 0 < q.amount + q.fee_reserve
                        <= sum_amounts(self.store@) ==> r is Ok
                },
    {
        let i = match find_melt_quote(&self.melt_quotes, id) {
            Some(i) => i,
            None => {
                return Err(WalletError::new(ErrorKind::NotFound, "unknown quote"));
            },
        };
        proof {
            assert forall|k: int| #[trigger] melt_quote_at(self.melt_quotes@, id@, k) implies k
                == i by {
                if k < i {
                    assert(self.melt_quotes@[k].id@ != id@);
                } else if k > i {
                    assert(self.melt_quotes@[i as int].id@ != id@);
                }
            }
        }
        if self.melt_quotes[i].state != MeltQuoteState::Unpaid {
            return Err(WalletError::new(ErrorKind::StateError, "quote is not open"));
        }
        let q = &self.melt_quotes[i];
        proof {
            crate::store::lemma_store_bounded(&self.store);
        }
        if q.fee_reserve > u64::MAX - q.amount {
            return Err(WalletError::new(ErrorKind::InvalidInput, "amount overflows"));
        }
        self.store.prepare_send(q.amount + q.fee_reserve)
    }

    /// Records the mint's answer to a melt. When the quote becomes `Paid` the
    /// chosen proofs leave the store, the change joins it and an outgoing entry
    /// of the quote's amount is appended; otherwise the store is untouched and
    /// only the quote's state moves (never back). Change past the proofs' value
    /// less the amount is `ProtocolError`; proofs no longer held are `StateError`.
    pub fn finish_melt(
        &mut self,
        id: &str,
        prepared: &PreparedSend,
        outcome: MeltOutcome,
        now: u64,
        tx_id: String,
    ) -> (r: Result<MeltQuoteState, WalletError>)
        requires
            old(self).wf(),
        ensures
            final(self).wf(),
            same_identity(*old(self), *final(self)),
            !has_melt_quote(old(self).melt_quotes@, id@) ==> fails_with(r, ErrorKind::NotFound),
            r is Err ==> *final(self) == *old(self),
            r is Ok ==> exists|i: int| melt_quote_at(old(self).melt_quotes@, id@, i),
            forall|i: int| #[trigger]
                melt_quote_at(old(self).melt_quotes@, id@, i) ==> {
                    let q = old(self).melt_quotes@[i];
                    let next = melt_after(q.state, outcome.state);
                    &&& r is Ok ==> r->Ok_0 == next && final(self).melt_quotes@[i].state == next
                        && final(self).melt_quotes@.len() == old(self).melt_quotes@.len()
                    &&& r is Ok && !(next == MeltQuoteState::Paid && q.state
                        != MeltQuoteState::Paid) ==> final(self).store == old(self).store
                        && final(self).transactions == old(self).transactions
                    &&& !(next == MeltQuoteState::Paid && q.state != MeltQuoteState::Paid) ==> r is Ok
                    &&& next == MeltQuoteState::Paid && q.state != MeltQuoteState::Paid
                        && sum_amounts(views(outcome.change@)) + q.amount <= sum_amounts(
                        views(prepared.proofs@),
                    ) && prepared.proofs@.len() <= old(self).store@.len() && old(self).store@.take(
                        prepared.proofs@.len() as int,
                    ) == views(prepared.proofs@) ==> r is Ok
                    &&& r is Ok && next == MeltQuoteState::Paid && q.state != MeltQuoteState::Paid
                        ==> {
                        &&& final(self).store@ == merged(
                            old(self).store@.skip(prepared.proofs@.len() as int),
                            views(outcome.change@),
                        )
                        &&& final(self).transactions@.len() == old(self).transactions@.len() + 1
                        &&& final(self).transactions@.take(old(self).transactions@.len() as int)
                            == old(self).transactions@
                        &&& final(self).transactions@.last().direction@ == "outgoing"@
                        &&& final(self).transactions@.last().amount == q.amount
                        &&& final(self).transactions@.last().fee == sum_amounts(
                            views(prepared.proofs@),
                        ) - sum_amounts(views(outcome.change@)) - q.amount
                        &&& final(self).transactions@.last().mint_url == old(self).mint_url
                    }
                },
    {
        let i = match find_melt_quote(&self.melt_quotes, id) {
            Some(i) => i,
            None => {
                return Err(WalletError::new(ErrorKind::NotFound, "unknown quote"));
            },
        };
        proof {
            assert forall|k: int| #[trigger] melt_quote_at(self.melt_quotes@, id@, k) implies k
                == i by {
                if k < i {
                    assert(self.melt_quotes@[k].id@ != id@);
                } else if k > i {
                    assert(self.melt_quotes@[i as int].id@ != id@);
                }
            }
        }
        let current = self.melt_quotes[i].state;
        let next = observe_melt_state(current, outcome.state);
        let newly_paid = next == MeltQuoteState::Paid && current != MeltQuoteState::Paid;
        if newly_paid {
            proof {
                crate::store::lemma_store_bounded(&self.store);
                if prepared.proofs@.len() <= self.store@.len() {
                    crate::proofs::lemma_sum_split(self.store@, prepared.proofs@.len() as int);
                }
            }
            let amount = self.melt_quotes[i].amount;
            let change = match checked_sum(&outcome.change) {
                Some(c) => c,
                None => {
                    return Err(WalletError::new(ErrorKind::ProtocolError, "change overflows"));
                },
            };
            let spent = match checked_sum(&prepared.proofs) {
                Some(s) => s,
                None => {
                    return Err(WalletError::new(ErrorKind::ProtocolError, "spent overflows"));
                },
            };
            if change > spent || amount > spent - change {
                return Err(WalletError::new(ErrorKind::ProtocolError, "change too large"));
            }
            let ghost before = self.store@;
            proof {
                crate::store::lemma_store_bounded(&self.store);
            }
            match self.store.take_prepared(prepared) {
                Ok(()) => {},
                Err(e) => {
                    return Err(e);
                },
            }
            proof {
                crate::proofs::lemma_sum_split(before, prepared.proofs@.len() as int);
            }
            let _ = self.store.add_all(&outcome.change);
            let ghost n = self.transactions@.len();
            let ghost old_tx = self.transactions@;
            let tx = new_transaction(
                tx_id,
                false,
                "melt",
                amount,
                spent - change - amount,
                None,
                now,
                self.mint_url.clone(),
            );
            self.transactions.push(tx);
            assert(self.transactions@.take(n as int) =~= old_tx);
        }
        let mut q = self.melt_quotes.remove(i);
        q.state = next;
        self.melt_quotes.insert(i, q);
        Ok(next)
    }
}

} // verus!
