use vstd::prelude::*;
use crate::error::{ErrorKind, WalletError, fails_with};
use crate::instance::{
    Token, SwapOutcome, MeltOutcome, WalletInfo, WalletInstance, same_identity,
};
use crate::ledger::{TransactionInfo, TxView, tx_views, by_time, insert_by_time};
use crate::mint::{MintInfo, MintCapabilities, canonical_mint_url, normalize_mint_url, build_mint_info};
use crate::proofs::{CashuProof, views, sum_amounts};
use crate::quote::{MintQuote, MintQuoteState, MeltQuote, MeltQuoteState};
use crate::seed::{wallet_seed_from_hex, hkdf_sha256_64, SEED_EXPANSION_INFO};
use crate::hexcodec::hex_bytes;
use vstd::string::StringSliceAdditionalSpecFns;
use crate::hexcodec::is_hex;
use crate::store::{ProofStore, PreparedSend, merged};
use crate::text::{strs, concat2};

verus! {

/// What a reachability probe of a mint returned: its descriptor, its active
/// keyset, and whether the descriptor was read back from storage after saving.
#[derive(Debug)]
pub struct MintDescriptor {
    pub info: MintInfo,
    pub active_keyset_id: Option<String>,
    pub persisted: bool,
}

#[derive(Debug, Clone, Copy, PartialEq, Eq, Structural)]
pub enum AddMintOutcome {
    Added,
    AlreadyPresent,
}

/// The mint's answer to a request for a mint quote.
#[derive(Debug)]
pub struct QuoteResponse {
    pub id: String,
    pub request: String,
}

/// The mint's answer to a request for a melt quote.
#[derive(Debug)]
pub struct MeltQuoteResponse {
    pub id: String,
    pub amount: u64,
    pub fee_reserve: u64,
}

/// A persisted mint whose reload succeeded: its URL is accepted, its descriptor
/// was read back and it has an active keyset.
pub open spec fn good_reload(x: (String, Result<MintDescriptor, WalletError>)) -> bool {
    canonical_mint_url(x.0@) is Some && x.1 is Ok && x.1->Ok_0.persisted
        && x.1->Ok_0.active_keyset_id is Some
}

/// `url` is the canonical form of the URL of a reload that succeeded.
pub open spec fn from_good_reload(
    rs: Seq<(String, Result<MintDescriptor, WalletError>)>,
    url: Seq<char>,
) -> bool {
    exists|j: int|
        0 <= j < rs.len() && #[trigger] good_reload(rs[j]) && canonical_mint_url(rs[j].0@) == Some(
            url,
        )
}

/// Some wallet of `ws` is bound to the mint `url`.
pub open spec fn registered(ws: Seq<WalletInstance>, url: Seq<char>) -> bool {
    exists|i: int| 0 <= i < ws.len() && #[trigger] ws[i].mint_url@ == url
}

/// No two wallets of `ws` are bound to the same mint.
pub open spec fn urls_unique(ws: Seq<WalletInstance>) -> bool {
    forall|i: int, j: int|
        0 <= i < ws.len() && 0 <= j < ws.len() && i != j ==> #[trigger] ws[i].mint_url@
            != #[trigger] ws[j].mint_url@
}

/// `key` names a wallet: its mint, a colon, its unit.
pub open spec fn wallet_key(w: WalletInstance) -> Seq<char> {
    w.mint_url@ + ":"@ + w.unit@
}

/// All ledger entries of `ws`, wallet after wallet.
pub open spec fn all_transactions(ws: Seq<WalletInstance>) -> Seq<TxView>
    decreases ws.len(),
{
    if ws.len() == 0 {
        Seq::empty()
    } else {
        all_transactions(ws.drop_last()) + tx_views(ws.last().transactions@)
    }
}

/// The wallets of one unit, at most one per mint, and their seed.
pub struct MultiMintWallet {
    unit: String,
    seed: Vec<u8>,
    wallets: Vec<WalletInstance>,
    next_tx: u64,
}

impl MultiMintWallet {
    pub closed spec fn wallets_spec(&self) -> Seq<WalletInstance> {
        self.wallets@
    }

    pub closed spec fn unit_spec(&self) -> Seq<char> {
        self.unit@
    }

    pub closed spec fn seed_spec(&self) -> Seq<u8> {
        self.seed@
    }

    /// Each wallet is well formed and of this unit, and no mint has two wallets.
    pub closed spec fn wf(&self) -> bool {
        &&& urls_unique(self.wallets@)
        &&& forall|i: int|
            0 <= i < self.wallets@.len() ==> (#[trigger] self.wallets@[i]).wf()
                && self.wallets@[i].unit@ == self.unit@
    }

    /// `url` names a known mint.
    pub open spec fn has_mint_spec(&self, url: Seq<char>) -> bool {
        canonical_mint_url(url) is Some && registered(self.wallets_spec(), canonical_mint_url(url)->0)
    }

    /// The wallet at `i` is the one for the mint `url`.
    pub open spec fn wallet_for(&self, url: Seq<char>, i: int) -> bool {
        &&& canonical_mint_url(url) is Some
        &&& 0 <= i < self.wallets_spec().len()
        &&& self.wallets_spec()[i].mint_url@ == canonical_mint_url(url)->0
    }

    /// Only the wallet at `i` may differ between `self` and `other`.
    pub open spec fn same_but(&self, other: &MultiMintWallet, i: int) -> bool {
        &&& self.wallets_spec().len() == other.wallets_spec().len()
        &&& forall|j: int|
            0 <= j < self.wallets_spec().len() && j != i ==> #[trigger] self.wallets_spec()[j]
                == other.wallets_spec()[j]
        &&& same_identity(self.wallets_spec()[i], other.wallets_spec()[i])
        &&& self.unit_spec() == other.unit_spec()
        &&& self.seed_spec() == other.seed_spec()
    }

    /// Sets up a wallet of `unit` with no mints, from a seed in hex (see
    /// `wallet_seed_from_hex`); a malformed seed is `InvalidInput`.
    pub fn new(unit: &str, seed_hex: &str) -> (r: Result<MultiMintWallet, WalletError>)
        ensures
            r is Ok <==> (seed_hex@.len() == 64 || seed_hex@.len() == 128) && is_hex(seed_hex@),
            r is Err ==> fails_with(r, ErrorKind::InvalidInput),
            r is Ok ==> r->Ok_0.wf() && r->Ok_0.wallets_spec().len() == 0 && r->Ok_0.unit_spec()
                == unit@ && r->Ok_0.seed_spec().len() == 64,
            r is Ok && seed_hex@.len() == 128 ==> r->Ok_0.seed_spec() == hex_bytes(seed_hex@),
            r is Ok && seed_hex@.len() == 64 ==> r->Ok_0.seed_spec() == hkdf_sha256_64(
                hex_bytes(seed_hex@),
                SEED_EXPANSION_INFO.spec_bytes(),
            ),
    {
        let seed = wallet_seed_from_hex(seed_hex)?;
        let w = MultiMintWallet {
            unit: String::from_str(unit),
            seed,
            wallets: Vec::new(),
            next_tx: 0,
        };
        assert(w.wf());
        Ok(w)
    }

    pub fn unit(&self) -> (r: String)
        ensures
            r@ == self.unit_spec(),
    {
        self.unit.clone()
    }

    pub fn seed(&self) -> (r: &Vec<u8>)
        ensures
            r@ == self.seed_spec(),
    {
        &self.seed
    }

    pub proof fn lemma_wallet_for_unique(&self, url: Seq<char>, i: int, j: int)
        requires
            self.wf(),
            self.wallet_for(url, i),
            self.wallet_for(url, j),
        ensures
            i == j,
    {
    }

    fn index_of(&self, canonical: &String) -> (r: Option<usize>)
        ensures
            r is None <==> !registered(self.wallets@, canonical@),
            r is Some ==> r->0 < self.wallets@.len() && self.wallets@[r->0 as int].mint_url@
                == canonical@,
    {
        let mut i: usize = 0;
        while i < self.wallets.len()
            invariant
                i <= self.wallets.len(),
                forall|j: int| 0 <= j < i ==> #[trigger] self.wallets@[j].mint_url@ != canonical@,
            decreases self.wallets.len() - i,
        {
            if self.wallets[i].mint_url == *canonical {
                return Some(i);
            }
            i += 1;
        }
        None
    }

    /// Finds the wallet of a mint: a refused URL is `InvalidInput`, an unknown
    /// mint `NotFound`.
    fn locate(&self, mint_url: &str) -> (r: Result<usize, WalletError>)
        ensures
            canonical_mint_url(mint_url@) is None <==> fails_with(r, ErrorKind::InvalidInput),
            canonical_mint_url(mint_url@) is Some && !self.has_mint_spec(mint_url@) <==> fails_with(
                r,
                ErrorKind::NotFound,
            ),
            r is Ok <==> self.has_mint_spec(mint_url@),
            r is Ok ==> self.wallet_for(mint_url@, r->Ok_0 as int),
    {
        let canonical = normalize_mint_url(mint_url)?;
        match self.index_of(&canonical) {
            Some(i) => Ok(i),
            None => Err(WalletError::new(ErrorKind::NotFound, "mint not found in wallet")),
        }
    }

    /// Whether the mint is known; a refused URL names no mint.
    pub fn has_mint(&self, mint_url: &str) -> (r: bool)
        ensures
            r == self.has_mint_spec(mint_url@),
    {
        match normalize_mint_url(mint_url) {
            Ok(c) => self.index_of(&c).is_some(),
            Err(_) => false,
        }
    }

    fn take_id(&mut self) -> (r: String)
        ensures
            final(self).wallets@ == old(self).wallets@,
            final(self).unit == old(self).unit,
            final(self).seed == old(self).seed,
    {
        let id = self.next_tx.to_string();
        if self.next_tx < u64::MAX {
            self.next_tx = self.next_tx + 1;
        }
        id
    }

    fn instance_from_probe(&self, canonical: String, probe: Result<MintDescriptor, WalletError>) -> (r:
        Result<WalletInstance, WalletError>)
        ensures
            probe is Err ==> fails_with(r, ErrorKind::NetworkFailure),
            probe is Ok && !probe->Ok_0.persisted ==> fails_with(r, ErrorKind::StateError),
            probe is Ok && probe->Ok_0.persisted && probe->Ok_0.active_keyset_id is None
                ==> fails_with(r, ErrorKind::ProtocolError),
            r is Ok <==> probe is Ok && probe->Ok_0.persisted && probe->Ok_0.active_keyset_id is Some,
            r is Ok ==> {
                let w = r->Ok_0;
                &&& w.wf() && w.mint_url == canonical && w.unit@ == self.unit@
                &&& w.store@.len() == 0 && w.transactions@.len() == 0
                &&& w.mint_quotes@.len() == 0 && w.melt_quotes@.len() == 0
            },
    {
        let desc = match probe {
            Ok(d) => d,
            Err(e) => {
                return Err(WalletError { kind: ErrorKind::NetworkFailure, detail: e.detail });
            },
        };
        if !desc.persisted {
            return Err(WalletError::new(ErrorKind::StateError, "mint info was not saved"));
        }
        let keyset = match desc.active_keyset_id {
            Some(k) => k,
            None => {
                return Err(WalletError::new(ErrorKind::ProtocolError, "mint has no active keyset"));
            },
        };
        Ok(WalletInstance::new(canonical, self.unit.clone(), keyset, desc.info))
    }

    /// Registers a mint given the outcome of its reachability probe. A refused URL
    /// is `InvalidInput`; a known mint is left as it is. Otherwise the mint is
    /// added only when the probe succeeded, its descriptor was read back from
    /// storage and it has an active keyset; when any of these fails no wallet is
    /// left behind.
    pub fn add_mint(&mut self, mint_url: &str, probe: Result<MintDescriptor, WalletError>) -> (r:
        Result<AddMintOutcome, WalletError>)
        requires
            old(self).wf(),
        ensures
            final(self).wf(),
            canonical_mint_url(mint_url@) is None <==> fails_with(r, ErrorKind::InvalidInput),
            old(self).has_mint_spec(mint_url@) ==> r == Ok::<AddMintOutcome, WalletError>(
                AddMintOutcome::AlreadyPresent,
            ) && *final(self) == *old(self),
            r is Err ==> *final(self) == *old(self),
            r != Ok::<AddMintOutcome, WalletError>(AddMintOutcome::Added) ==> *final(self) == *old(
                self,
            ),
            probe is Err && !old(self).has_mint_spec(mint_url@) ==> r is Err
                && !final(self).has_mint_spec(mint_url@),
            r == Ok::<AddMintOutcome, WalletError>(AddMintOutcome::Added) <==> (canonical_mint_url(
                mint_url@,
            ) is Some && !old(self).has_mint_spec(mint_url@) && probe is Ok
                && probe->Ok_0.persisted && probe->Ok_0.active_keyset_id is Some),
            r == Ok::<AddMintOutcome, WalletError>(AddMintOutcome::Added) ==> {
                let ws = final(self).wallets_spec();
                &&& final(self).has_mint_spec(mint_url@)
                &&& ws.len() == old(self).wallets_spec().len() + 1
                &&& ws.drop_last() == old(self).wallets_spec()
                &&& ws.last().mint_url@ == canonical_mint_url(mint_url@)->0
                &&& ws.last().store@.len() == 0
                &&& final(self).unit_spec() == old(self).unit_spec()
            },
    {
        let canonical = normalize_mint_url(mint_url)?;
        if self.index_of(&canonical).is_some() {
            return Ok(AddMintOutcome::AlreadyPresent);
        }
        let w = self.instance_from_probe(canonical, probe)?;
        let ghost before = self.wallets@;
        self.wallets.push(w);
        proof {
            assert(self.wallets@.drop_last() =~= before);
            assert(self.wallets@[before.len() as int].mint_url@ == canonical_mint_url(mint_url@)->0);
        }
        Ok(AddMintOutcome::Added)
    }

    /// Rebuilds the registry from persisted mints, given the outcome of reloading
    /// each. A mint whose reload failed is skipped and the others are still
    /// registered; returns how many were added.
    pub fn restore_mints(&mut self, reloads: Vec<(String, Result<MintDescriptor, WalletError>)>) -> (r:
        usize)
        requires
            old(self).wf(),
        ensures
            final(self).wf(),
            r <= reloads@.len(),
            final(self).wallets_spec().len() == old(self).wallets_spec().len() + r,
            final(self).wallets_spec().take(old(self).wallets_spec().len() as int) == old(
                self,
            ).wallets_spec(),
            forall|w: int|
                old(self).wallets_spec().len() <= w < final(self).wallets_spec().len()
                    ==> from_good_reload(reloads@, #[trigger] final(self).wallets_spec()[w].mint_url@),
            forall|i: int|
                0 <= i < reloads@.len() && canonical_mint_url(#[trigger] reloads@[i].0@) is Some
                    && reloads@[i].1 is Ok && reloads@[i].1->Ok_0.persisted
                    && reloads@[i].1->Ok_0.active_keyset_id is Some ==> final(self).has_mint_spec(
                    reloads@[i].0@,
                ),
    {
        let ghost start = self.wallets@;
        let ghost all = reloads@;
        let mut added: usize = 0;
        let mut rest = reloads;
        let n = rest.len();
        while rest.len() > 0
            invariant
                self.wf(),
                all.len() == n,
                rest@.len() <= all.len(),
                rest@ == all.take(rest@.len() as int),
                added <= all.len() - rest@.len(),
                self.wallets@.len() == start.len() + added,
                self.wallets@.take(start.len() as int) == start,
                forall|w: int|
                    start.len() <= w < self.wallets@.len() ==> exists|j: int|
                        rest@.len() <= j < all.len() && #[trigger] good_reload(all[j])
                            && canonical_mint_url(all[j].0@) == Some(
                            #[trigger] self.wallets@[w].mint_url@,
                        ),
                forall|j: int|
                    rest@.len() <= j < all.len() && canonical_mint_url(#[trigger] all[j].0@) is Some
                        && all[j].1 is Ok && all[j].1->Ok_0.persisted
                        && all[j].1->Ok_0.active_keyset_id is Some ==> self.has_mint_spec(all[j].0@),
            decreases rest@.len(),
        {
            let ghost before = self.wallets@;
            let ghost i = rest@.len() - 1;
            let (url, probe) = rest.pop().unwrap();
            proof {
                assert(all.take(i + 1)[i] == all[i]);
                assert(rest@ =~= all.take(i));
            }
            let res = self.add_mint(url.as_str(), probe);
            match res {
                Ok(AddMintOutcome::Added) => {
                    added = added + 1;
                },
                _ => {},
            }
            proof {
                assert(self.wallets@.take(before.len() as int) == before);
                assert(self.wallets@.take(start.len() as int) =~= start);
                assert forall|w: int| start.len() <= w < self.wallets@.len() implies exists|j: int|
                    i <= j < all.len() && #[trigger] good_reload(all[j]) && canonical_mint_url(
                        all[j].0@,
                    ) == Some(#[trigger] self.wallets@[w].mint_url@) by {
                    if w < before.len() {
                        assert(self.wallets@[w] == before[w]);
                        let j = choose|j: int|
                            i + 1 <= j < all.len() && #[trigger] good_reload(all[j])
                                && canonical_mint_url(all[j].0@) == Some(before[w].mint_url@);
                        assert(i <= j < all.len() && good_reload(all[j]));
                    } else {
                        assert(good_reload(all[i]));
                    }
                }
                assert forall|j: int|
                    i <= j < all.len() && canonical_mint_url(#[trigger] all[j].0@) is Some
                        && all[j].1 is Ok && all[j].1->Ok_0.persisted
                        && all[j].1->Ok_0.active_keyset_id is Some implies self.has_mint_spec(
                    all[j].0@,
                ) by {
                    if j > i {
                        let c = canonical_mint_url(all[j].0@)->0;
                        let w = choose|w: int| 0 <= w < before.len() && #[trigger] before[w].mint_url@ == c;
                        assert(self.wallets@[w] == before[w]);
                    }
                }
            }
        }
        proof {
            assert forall|w: int|
                start.len() <= w < self.wallets_spec().len() implies from_good_reload(
                    all,
                    #[trigger] self.wallets_spec()[w].mint_url@,
                ) by {
                assert(self.wallets_spec() == self.wallets@);
                let m = self.wallets@[w].mint_url@;
                let j = choose|j: int|
                    rest@.len() <= j < all.len() && #[trigger] good_reload(all[j])
                        && canonical_mint_url(all[j].0@) == Some(m);
                assert(0 <= j < all.len());
            }
        }
        added
    }

    /// Rebuilds the proofs of a mint's wallet from the persisted ones: the wallet
    /// then holds those of `proofs`, one per secret, in order, and the new balance
    /// is returned. A refused URL or amounts past `u64::MAX` are `InvalidInput`, an
    /// unknown mint `NotFound`; on error nothing changes.
    pub fn sync_proofs(&mut self, mint_url: &str, proofs: &Vec<CashuProof>) -> (r: Result<
        u64,
        WalletError,
    >)
        requires
            old(self).wf(),
        ensures
            final(self).wf(),
            r is Err ==> final(self).wallets_spec() == old(self).wallets_spec(),
            canonical_mint_url(mint_url@) is None ==> fails_with(r, ErrorKind::InvalidInput),
            canonical_mint_url(mint_url@) is Some && !old(self).has_mint_spec(mint_url@)
                ==> fails_with(r, ErrorKind::NotFound),
            r is Ok <==> old(self).has_mint_spec(mint_url@) && sum_amounts(views(proofs@))
                <= u64::MAX,
            r is Ok ==> exists|i: int|
                old(self).wallet_for(mint_url@, i) && final(self).same_but(&*old(self), i)
                    && final(self).wallets_spec()[i].store@ == merged(Seq::empty(), views(proofs@))
                    && r->Ok_0 as nat == final(self).wallets_spec()[i].balance_spec()
                    && final(self).wallets_spec()[i].transactions
                    == old(self).wallets_spec()[i].transactions,
    {
        let i = self.locate(mint_url)?;
        let mut store = ProofStore::new();
        proof {
            assert(sum_amounts(Seq::<crate::proofs::ProofView>::empty()) == 0);
        }
        let _ = match store.add_all(proofs) {
            Ok(a) => a,
            Err(e) => {
                return Err(e);
            },
        };
        let ghost before = self.wallets@;
        let mut w = self.wallets.remove(i);
        w.store = store;
        let balance = w.store.balance();
        self.wallets.insert(i, w);
        proof {
            assert(self.wallets@ =~= before.update(i as int, self.wallets@[i as int]));
        }
        Ok(balance)
    }

    /// Forgets a mint and its wallet, whatever it still holds. A refused URL is
    /// `InvalidInput`, an unknown mint `NotFound`.
    pub fn remove_mint(&mut self, mint_url: &str) -> (r: Result<(), WalletError>)
        requires
            old(self).wf(),
        ensures
            final(self).wf(),
            canonical_mint_url(mint_url@) is None <==> fails_with(r, ErrorKind::InvalidInput),
            canonical_mint_url(mint_url@) is Some && !old(self).has_mint_spec(mint_url@)
                <==> fails_with(r, ErrorKind::NotFound),
            r is Err ==> *final(self) == *old(self),
            r is Ok ==> exists|i: int|
                old(self).wallet_for(mint_url@, i) && final(self).wallets_spec() == old(
                    self,
                ).wallets_spec().remove(i),
            r is Ok <==> old(self).has_mint_spec(mint_url@),
            r is Ok ==> !final(self).has_mint_spec(mint_url@),
    {
        let i = self.locate(mint_url)?;
        let ghost before = self.wallets@;
        let _ = self.wallets.remove(i);
        proof {
            let c = canonical_mint_url(mint_url@)->0;
            assert forall|k: int| 0 <= k < self.wallets@.len() implies #[trigger] self.wallets@[k].mint_url@ != c by {
                if k < i {
                    assert(before[k].mint_url@ != before[i as int].mint_url@);
                } else {
                    assert(before[k + 1].mint_url@ != before[i as int].mint_url@);
                }
            }
        }
        Ok(())
    }

    /// The key of each wallet, `mint:unit`, in registration order.
    pub fn list_mints(&self) -> (r: Vec<String>)
        ensures
            strs(r@) == self.wallets_spec().map_values(|w: WalletInstance| wallet_key(w)),
    {
        let mut out: Vec<String> = Vec::new();
        let mut i: usize = 0;
        while i < self.wallets.len()
            invariant
                i <= self.wallets.len(),
                strs(out@) =~= self.wallets@.take(i as int).map_values(
                    |w: WalletInstance| wallet_key(w),
                ),
            decreases self.wallets.len() - i,
        {
            let k = concat2(self.wallets[i].mint_url.as_str(), ":").concat(
                self.wallets[i].unit.as_str(),
            );
            let ghost before = out@;
            out.push(k);
            proof {
                assert(strs(out@) =~= strs(before).push(k@));
                assert(self.wallets@.take(i as int + 1) =~= self.wallets@.take(i as int).push(
                    self.wallets@[i as int],
                ));
            }
            i += 1;
        }
        assert(self.wallets@.take(i as int) =~= self.wallets@);
        out
    }

    /// The balance of each wallet under its key `mint:unit`, in registration order.
    pub fn get_all_balances(&self) -> (r: Vec<(String, u64)>)
        requires
            self.wf(),
        ensures
            r@.len() == self.wallets_spec().len(),
            forall|i: int|
                0 <= i < r@.len() ==> (#[trigger] r@[i]).0@ == wallet_key(self.wallets_spec()[i])
                    && r@[i].1 as nat == self.wallets_spec()[i].balance_spec(),
    {
        let mut out: Vec<(String, u64)> = Vec::new();
        let mut i: usize = 0;
        while i < self.wallets.len()
            invariant
                self.wf(),
                i <= self.wallets.len(),
                out@.len() == i,
                forall|j: int|
                    0 <= j < i ==> (#[trigger] out@[j]).0@ == wallet_key(self.wallets@[j])
                        && out@[j].1 as nat == self.wallets@[j].balance_spec(),
            decreases self.wallets.len() - i,
        {
            let k = concat2(self.wallets[i].mint_url.as_str(), ":").concat(
                self.wallets[i].unit.as_str(),
            );
            assert(self.wallets@[i as int].wf());
            out.push((k, self.wallets[i].store.balance()));
            i += 1;
        }
        out
    }

    /// The summary of the wallet of a mint.
    pub fn get_wallet_info(&self, mint_url: &str) -> (r: Result<WalletInfo, WalletError>)
        requires
            self.wf(),
        ensures
            canonical_mint_url(mint_url@) is None <==> fails_with(r, ErrorKind::InvalidInput),
            canonical_mint_url(mint_url@) is Some && !self.has_mint_spec(mint_url@) <==> fails_with(
                r,
                ErrorKind::NotFound,
            ),
            r is Ok <==> self.has_mint_spec(mint_url@),
            r is Ok ==> exists|i: int|
                self.wallet_for(mint_url@, i) && r->Ok_0.mint_url == self.wallets_spec()[i].mint_url
                    && r->Ok_0.unit == self.wallets_spec()[i].unit && r->Ok_0.balance as nat
                    == self.wallets_spec()[i].balance_spec() && r->Ok_0.active_keyset_id
                    == self.wallets_spec()[i].active_keyset_id,
    {
        let i = self.locate(mint_url)?;
        assert(self.wallets@[i as int].wf());
        Ok(self.wallets[i].info())
    }

    /// The unspent proofs of the wallet of a mint.
    pub fn get_wallet_proofs(&self, mint_url: &str) -> (r: Result<Vec<CashuProof>, WalletError>)
        ensures
            canonical_mint_url(mint_url@) is None <==> fails_with(r, ErrorKind::InvalidInput),
            canonical_mint_url(mint_url@) is Some && !self.has_mint_spec(mint_url@) <==> fails_with(
                r,
                ErrorKind::NotFound,
            ),
            r is Ok <==> self.has_mint_spec(mint_url@),
            r is Ok ==> exists|i: int|
                self.wallet_for(mint_url@, i) && views(r->Ok_0@) == self.wallets_spec()[i].store@,
    {
        let i = self.locate(mint_url)?;
        Ok(self.wallets[i].store.unspent())
    }

    /// Presents the descriptor fetched from a known mint; a failed fetch is passed
    /// on, and a mint that returned none is `NotFound`.
    pub fn get_mint_info(
        &self,
        mint_url: &str,
        fetched: Result<Option<MintCapabilities>, WalletError>,
    ) -> (r: Result<MintInfo, WalletError>)
        ensures
            canonical_mint_url(mint_url@) is None ==> fails_with(r, ErrorKind::InvalidInput),
            canonical_mint_url(mint_url@) is Some && !self.has_mint_spec(mint_url@) ==> fails_with(
                r,
                ErrorKind::NotFound,
            ),
            self.has_mint_spec(mint_url@) ==> match fetched {
                Err(e) => r == Err::<MintInfo, WalletError>(e),
                Ok(None) => fails_with(r, ErrorKind::NotFound),
                Ok(Some(c)) => {
                    let m = r->Ok_0;
                    &&& r is Ok
                    &&& m.name == c.name && m.version == c.version
                    &&& m.description == c.description && m.description_long == c.description_long
                    &&& m.contact == c.contact && m.motd == c.motd
                    &&& m.icon_url == c.icon_url && m.urls == c.urls
                    &&& m.nuts is Some && strs(m.nuts->0@) == crate::mint::nut_labels(c.nuts)
                    &&& m.public_key is None && m.additional_info is None
                },
            },
    {
        let _ = self.locate(mint_url)?;
        match fetched {
            Err(e) => Err(e),
            Ok(None) => Err(WalletError::new(ErrorKind::NotFound, "mint info not available")),
            Ok(Some(c)) => Ok(build_mint_info(c)),
        }
    }

    /// Chooses proofs of the wallet of a mint to cover `amount`; nothing changes.
    pub fn prepare_send(&self, mint_url: &str, amount: u64) -> (r: Result<PreparedSend, WalletError>)
        requires
            self.wf(),
        ensures
            canonical_mint_url(mint_url@) is None ==> fails_with(r, ErrorKind::InvalidInput),
            canonical_mint_url(mint_url@) is Some && !self.has_mint_spec(mint_url@) ==> fails_with(
                r,
                ErrorKind::NotFound,
            ),
            forall|i: int| #[trigger]
                self.wallet_for(mint_url@, i) ==> {
                    let w = self.wallets_spec()[i];
                    &&& amount == 0 ==> fails_with(r, ErrorKind::InvalidInput)
                    &&& amount > w.balance_spec() ==> r is Err
                    &&& 0 < amount <= w.balance_spec() ==> r is Ok
                    &&& r is Ok ==> r->Ok_0.amount == amount && views(r->Ok_0.proofs@)
                        == w.store@.take(r->Ok_0.proofs@.len() as int) && sum_amounts(
                        views(r->Ok_0.proofs@),
                    ) >= amount
                },
    {
        let i = self.locate(mint_url)?;
        proof {
            assert forall|k: int| #[trigger] self.wallet_for(mint_url@, k) implies k == i by {
                self.lemma_wallet_for_unique(mint_url@, i as int, k);
            }
            assert(self.wallets@[i as int].wf());
        }
        self.wallets[i].store.prepare_send(amount)
    }

    /// Completes a send prepared with `prepare_send` on the wallet of a mint,
    /// given the mint's answer (see `WalletInstance::confirm_send`). A failed swap
    /// is passed on. On any error nothing changes.
    pub fn confirm_send(
        &mut self,
        mint_url: &str,
        prepared: &PreparedSend,
        memo: Option<String>,
        swap: Result<SwapOutcome, WalletError>,
        now: u64,
    ) -> (r: Result<Token, WalletError>)
        requires
            old(self).wf(),
        ensures
            final(self).wf(),
            r is Err ==> final(self).wallets_spec() == old(self).wallets_spec(),
            canonical_mint_url(mint_url@) is None ==> fails_with(r, ErrorKind::InvalidInput),
            canonical_mint_url(mint_url@) is Some && !old(self).has_mint_spec(mint_url@)
                ==> fails_with(r, ErrorKind::NotFound),
            swap is Err ==> r is Err,
            forall|i: int|
                #[trigger] old(self).wallet_for(mint_url@, i) && swap is Ok ==> (r is Ok <==> {
                    let w = old(self).wallets_spec()[i];
                    let sw = swap->Ok_0;
                    &&& sum_amounts(views(sw.send@)) == prepared.amount
                    &&& sum_amounts(views(sw.send@)) + sum_amounts(views(sw.change@))
                        <= sum_amounts(views(prepared.proofs@))
                    &&& prepared.proofs@.len() <= w.store@.len()
                    &&& w.store@.take(prepared.proofs@.len() as int) == views(prepared.proofs@)
                }),
            r is Ok ==> exists|i: int|
                old(self).wallet_for(mint_url@, i) && final(self).same_but(&*old(self), i) && {
                    let before = old(self).wallets_spec()[i];
                    let after = final(self).wallets_spec()[i];
                    &&& after.store@ == merged(
                        before.store@.skip(prepared.proofs@.len() as int),
                        views(swap->Ok_0.change@),
                    )
                    &&& before.store@.take(prepared.proofs@.len() as int) == views(prepared.proofs@)
                    &&& sum_amounts(views(r->Ok_0.proofs@)) == prepared.amount
                    &&& r->Ok_0.mint_url == before.mint_url
                    &&& after.transactions@.len() == before.transactions@.len() + 1
                    &&& after.transactions@.take(before.transactions@.len() as int)
                        == before.transactions@
                    &&& after.transactions@.last().direction@ == "outgoing"@
                    &&& after.transactions@.last().amount == prepared.amount
                    &&& after.transactions@.last().mint_url == before.mint_url
                    &&& after.transactions@.last().transaction_type matches Some(k) && k@
                        == "ecash_send"@
                    &&& after.transactions@.last().fee == sum_amounts(views(prepared.proofs@))
                        - sum_amounts(views(swap->Ok_0.send@)) - sum_amounts(
                        views(swap->Ok_0.change@),
                    )
                },
    {
        let i = self.locate(mint_url)?;
        proof {
            assert forall|a: int| #[trigger] self.wallet_for(mint_url@, a) implies a == i by {
                self.lemma_wallet_for_unique(mint_url@, i as int, a);
            }
        }
        let swap = swap?;
        let id = self.take_id();
        let ghost before = self.wallets@;
        let mut w = self.wallets.remove(i);
        assert(before[i as int].wf());
        let r = w.confirm_send(prepared, memo, swap, now, id);
        self.wallets.insert(i, w);
        proof {
            assert(self.wallets@ =~= before.update(i as int, self.wallets@[i as int]));
            if r is Err {
                assert(self.wallets@ =~= before);
            }
        }
        r
    }

    /// Receives a token. Its mint, when unknown, is registered from the probe's
    /// outcome under the same rules as `add_mint`; the proofs the mint issued in
    /// exchange join that mint's wallet. A refused URL or a token of another unit
    /// is `InvalidInput`; an unknown mint without a probe is `StateError`; a
    /// failed exchange is passed on. On any error nothing changes, and no mint is
    /// registered.
    pub fn receive(
        &mut self,
        token: &Token,
        probe: Option<Result<MintDescriptor, WalletError>>,
        exchanged: Result<Vec<CashuProof>, WalletError>,
        now: u64,
    ) -> (r: Result<u64, WalletError>)
        requires
            old(self).wf(),
        ensures
            final(self).wf(),
            r is Err ==> final(self).wallets_spec() == old(self).wallets_spec(),
            canonical_mint_url(token.mint_url@) is None ==> fails_with(r, ErrorKind::InvalidInput),
            token.unit@ != old(self).unit_spec() ==> fails_with(r, ErrorKind::InvalidInput),
            exchanged is Err ==> r is Err,
            canonical_mint_url(token.mint_url@) is Some && token.unit@ == old(self).unit_spec()
                && exchanged is Ok && old(self).has_mint_spec(token.mint_url@) ==> forall|i: int|
                #[trigger] old(self).wallet_for(token.mint_url@, i) ==> (r is Ok <==> sum_amounts(
                    old(self).wallets_spec()[i].store@,
                ) + sum_amounts(views(exchanged->Ok_0@)) <= u64::MAX),
            canonical_mint_url(token.mint_url@) is Some && token.unit@ == old(self).unit_spec()
                && exchanged is Ok && !old(self).has_mint_spec(token.mint_url@) ==> (r is Ok <==> (
            probe matches Some(Ok(d)) && d.persisted && d.active_keyset_id is Some && sum_amounts(
                views(exchanged->Ok_0@),
            ) <= u64::MAX)),
            r is Ok ==> final(self).has_mint_spec(token.mint_url@),
            r is Ok && old(self).has_mint_spec(token.mint_url@) ==> exists|i: int|
                old(self).wallet_for(token.mint_url@, i) && final(self).same_but(&*old(self), i)
                    && final(self).wallets_spec()[i].store@ == merged(
                    old(self).wallets_spec()[i].store@,
                    views(exchanged->Ok_0@),
                ) && r->Ok_0 == final(self).wallets_spec()[i].balance_spec() - old(
                    self,
                ).wallets_spec()[i].balance_spec() && final(self).wallets_spec()[i].transactions@.last().amount
                    == r->Ok_0 && final(self).wallets_spec()[i].transactions@.last().direction@
                    == "incoming"@ && final(self).wallets_spec()[i].transactions@.last().mint_url
                    == old(self).wallets_spec()[i].mint_url
                    && (final(self).wallets_spec()[i].transactions@.last().transaction_type matches Some(
                    k,
                ) && k@ == "ecash_receive"@),
            r is Ok && !old(self).has_mint_spec(token.mint_url@) ==> {
                let ws = final(self).wallets_spec();
                &&& ws.len() == old(self).wallets_spec().len() + 1
                &&& ws.drop_last() == old(self).wallets_spec()
                &&& ws.last().store@ == merged(Seq::empty(), views(exchanged->Ok_0@))
                &&& r->Ok_0 == ws.last().balance_spec()
            },
    {
        let canonical = normalize_mint_url(token.mint_url.as_str())?;
        if token.unit != self.unit {
            return Err(WalletError::new(ErrorKind::InvalidInput, "token is of another unit"));
        }
        let proofs = exchanged?;
        let id = self.take_id();
        let ghost before = self.wallets@;
        match self.index_of(&canonical) {
            Some(i) => {
                proof {
                    assert forall|a: int| #[trigger] old(self).wallet_for(token.mint_url@, a) implies a
                        == i by {
                        old(self).lemma_wallet_for_unique(token.mint_url@, i as int, a);
                    }
                }
                let mut w = self.wallets.remove(i);
                assert(before[i as int].wf());
                let r = w.receive_proofs(&proofs, now, id);
                self.wallets.insert(i, w);
                proof {
                    assert(self.wallets@ =~= before.update(i as int, self.wallets@[i as int]));
                    if r is Err {
                        assert(self.wallets@ =~= before);
                    }
                    assert(self.wallets@[i as int].mint_url@ == canonical@);
                    assert(old(self).wallet_for(token.mint_url@, i as int));
                    assert(self.same_but(&*old(self), i as int));
                }
                r
            },
            None => {
                let probe = match probe {
                    Some(p) => p,
                    None => {
                        return Err(
                            WalletError::new(ErrorKind::StateError, "mint unknown and not probed"),
                        );
                    },
                };
                let mut w = self.instance_from_probe(canonical, probe)?;
                assert(w.store@ =~= Seq::empty());
                let amount = w.receive_proofs(&proofs, now, id)?;
                self.wallets.push(w);
                proof {
                    assert(self.wallets@.drop_last() =~= before);
                    assert(self.wallets@[before.len() as int].mint_url@ == canonical@);
                }
                Ok(amount)
            },
        }
    }

    /// Records a mint quote that the mint of `mint_url` returned for `amount`; a
    /// failed request is passed on.
    pub fn create_mint_quote(
        &mut self,
        mint_url: &str,
        amount: u64,
        response: Result<QuoteResponse, WalletError>,
    ) -> (r: Result<MintQuote, WalletError>)
        requires
            old(self).wf(),
        ensures
            final(self).wf(),
            r is Err ==> final(self).wallets_spec() == old(self).wallets_spec(),
            canonical_mint_url(mint_url@) is None ==> fails_with(r, ErrorKind::InvalidInput),
            canonical_mint_url(mint_url@) is Some && !old(self).has_mint_spec(mint_url@)
                ==> fails_with(r, ErrorKind::NotFound),
            response is Err ==> r is Err,
            forall|i: int|
                #[trigger] old(self).wallet_for(mint_url@, i) && response is Ok ==> (r is Ok
                    <==> !crate::instance::has_mint_quote(
                    old(self).wallets_spec()[i].mint_quotes@,
                    response->Ok_0.id@,
                )),
            r is Ok ==> r->Ok_0.amount == amount && r->Ok_0.state == MintQuoteState::Unpaid
                && r->Ok_0.id == response->Ok_0.id && r->Ok_0.request == response->Ok_0.request
                && r->Ok_0.unit@ == old(self).unit_spec(),
            r is Ok ==> exists|i: int|
                old(self).wallet_for(mint_url@, i) && final(self).same_but(&*old(self), i)
                    && final(self).wallets_spec()[i].mint_quotes@ == old(
                    self,
                ).wallets_spec()[i].mint_quotes@.push(r->Ok_0) && final(self).wallets_spec()[i].store
                    == old(self).wallets_spec()[i].store,
    {
        let i = self.locate(mint_url)?;
        proof {
            assert forall|a: int| #[trigger] self.wallet_for(mint_url@, a) implies a == i by {
                self.lemma_wallet_for_unique(mint_url@, i as int, a);
            }
        }
        let resp = response?;
        let ghost before = self.wallets@;
        let mut w = self.wallets.remove(i);
        assert(before[i as int].wf());
        let r = w.add_mint_quote(resp.id, resp.request, amount);
        self.wallets.insert(i, w);
        proof {
            assert(self.wallets@ =~= before.update(i as int, self.wallets@[i as int]));
            if r is Err {
                assert(self.wallets@ =~= before);
            }
        }
        r
    }

    /// Records the state that the mint reports for a quote; it never moves back.
    /// A failed check is passed on.
    pub fn check_mint_quote(
        &mut self,
        mint_url: &str,
        quote_id: &str,
        observed: Result<MintQuoteState, WalletError>,
    ) -> (r: Result<MintQuoteState, WalletError>)
        requires
            old(self).wf(),
        ensures
            final(self).wf(),
            r is Err ==> final(self).wallets_spec() == old(self).wallets_spec(),
            canonical_mint_url(mint_url@) is None ==> fails_with(r, ErrorKind::InvalidInput),
            canonical_mint_url(mint_url@) is Some && !old(self).has_mint_spec(mint_url@)
                ==> fails_with(r, ErrorKind::NotFound),
            observed is Err ==> r is Err,
            forall|i: int|
                #[trigger] old(self).wallet_for(mint_url@, i) && observed is Ok ==> (r is Ok
                    <==> crate::instance::has_mint_quote(
                    old(self).wallets_spec()[i].mint_quotes@,
                    quote_id@,
                )),
            r is Ok ==> exists|i: int, k: int|
                old(self).wallet_for(mint_url@, i) && final(self).same_but(&*old(self), i)
                    && crate::instance::mint_quote_at(
                    old(self).wallets_spec()[i].mint_quotes@,
                    quote_id@,
                    k,
                ) && r->Ok_0 == crate::quote::mint_after(
                    old(self).wallets_spec()[i].mint_quotes@[k].state,
                    observed->Ok_0,
                ) && final(self).wallets_spec()[i].mint_quotes@[k].state == r->Ok_0
                    && final(self).wallets_spec()[i].store == old(self).wallets_spec()[i].store,
    {
        let i = self.locate(mint_url)?;
        proof {
            assert forall|a: int| #[trigger] self.wallet_for(mint_url@, a) implies a == i by {
                self.lemma_wallet_for_unique(mint_url@, i as int, a);
            }
        }
        let seen = observed?;
        let ghost before = self.wallets@;
        let mut w = self.wallets.remove(i);
        assert(before[i as int].wf());
        let r = w.observe_mint_quote(quote_id, seen);
        self.wallets.insert(i, w);
        proof {
            assert(self.wallets@ =~= before.update(i as int, self.wallets@[i as int]));
            if r is Err {
                assert(self.wallets@ =~= before);
            }
        }
        r
    }

    /// Redeems a paid quote with the proofs the mint issued (see
    /// `WalletInstance::redeem_mint_quote`): an `Issued` quote gives 0 and
    /// changes nothing. A failed issuance is passed on.
    pub fn redeem_mint_quote(
        &mut self,
        mint_url: &str,
        quote_id: &str,
        issued: Result<Vec<CashuProof>, WalletError>,
        now: u64,
    ) -> (r: Result<u64, WalletError>)
        requires
            old(self).wf(),
        ensures
            final(self).wf(),
            r is Err ==> final(self).wallets_spec() == old(self).wallets_spec(),
            canonical_mint_url(mint_url@) is None ==> fails_with(r, ErrorKind::InvalidInput),
            canonical_mint_url(mint_url@) is Some && !old(self).has_mint_spec(mint_url@)
                ==> fails_with(r, ErrorKind::NotFound),
            forall|i: int, k: int|
                old(self).wallet_for(mint_url@, i) && #[trigger] crate::instance::mint_quote_at(
                    old(self).wallets_spec()[i].mint_quotes@,
                    quote_id@,
                    k,
                ) && old(self).wallets_spec()[i].mint_quotes@[k].state == MintQuoteState::Issued
                    ==> r == Ok::<u64, WalletError>(0) && final(self).wallets_spec() == old(
                    self,
                ).wallets_spec(),
            r is Ok ==> exists|i: int|
                old(self).wallet_for(mint_url@, i) && final(self).same_but(&*old(self), i)
                    && r->Ok_0 == final(self).wallets_spec()[i].balance_spec() - old(
                    self,
                ).wallets_spec()[i].balance_spec(),
            forall|i: int, k: int|
                old(self).wallet_for(mint_url@, i) && #[trigger] crate::instance::mint_quote_at(
                    old(self).wallets_spec()[i].mint_quotes@,
                    quote_id@,
                    k,
                ) && issued is Ok ==> {
                    let before = old(self).wallets_spec()[i];
                    let after = final(self).wallets_spec()[i];
                    let q = before.mint_quotes@[k];
                    &&& q.state == MintQuoteState::Unpaid ==> fails_with(r, ErrorKind::ProtocolError)
                    &&& q.state == MintQuoteState::Paid && sum_amounts(views(issued->Ok_0@))
                        != q.amount ==> fails_with(r, ErrorKind::ProtocolError)
                    &&& q.state == MintQuoteState::Paid && sum_amounts(views(issued->Ok_0@))
                        == q.amount && sum_amounts(before.store@) + q.amount <= u64::MAX ==> r is Ok
                    &&& q.state == MintQuoteState::Paid && r is Ok ==> {
                        &&& after.mint_quotes@[k].state == MintQuoteState::Issued
                        &&& after.store@ == merged(before.store@, views(issued->Ok_0@))
                        &&& after.transactions@.take(before.transactions@.len() as int)
                            == before.transactions@
                        &&& after.transactions@.last().direction@ == "incoming"@
                        &&& after.transactions@.last().amount == r->Ok_0
                        &&& after.transactions@.last().mint_url == before.mint_url
                    }
                },
            forall|i: int, k: int|
                old(self).wallet_for(mint_url@, i) && #[trigger] crate::instance::mint_quote_at(
                    old(self).wallets_spec()[i].mint_quotes@,
                    quote_id@,
                    k,
                ) && issued is Err && old(self).wallets_spec()[i].mint_quotes@[k].state
                    != MintQuoteState::Issued ==> r is Err,
    {
        let i = self.locate(mint_url)?;
        let ghost before = self.wallets@;
        proof {
            assert forall|k: int| #[trigger] self.wallet_for(mint_url@, k) implies k == i by {
                self.lemma_wallet_for_unique(mint_url@, i as int, k);
            }
        }
        match self.wallets[i].mint_quote_state(quote_id) {
            Some(MintQuoteState::Issued) => {
                proof {
                    assert forall|a: int, k: int|
                        self.wallet_for(mint_url@, a) && #[trigger] crate::instance::mint_quote_at(
                            self.wallets_spec()[a].mint_quotes@,
                            quote_id@,
                            k,
                        ) implies self.wallets_spec()[a].mint_quotes@[k].state
                        == MintQuoteState::Issued by {
                        let qs = self.wallets@[i as int].mint_quotes@;
                        let j = choose|j: int|
                            crate::instance::mint_quote_at(qs, quote_id@, j) && qs[j].state
                                == MintQuoteState::Issued;
                        crate::instance::lemma_mint_quote_at_unique(qs, quote_id@, j, k);
                    }
                }
                return Ok(0);
            },
            _ => {},
        }
        let proofs = match issued {
            Ok(p) => p,
            Err(e) => {
                return Err(e);
            },
        };
        let id = self.take_id();
        let mut w = self.wallets.remove(i);
        assert(before[i as int].wf());
        let r = w.redeem_mint_quote(quote_id, &proofs, now, id);
        self.wallets.insert(i, w);
        proof {
            assert(self.wallets@ =~= before.update(i as int, self.wallets@[i as int]));
            if r is Err {
                assert(self.wallets@ =~= before);
            }
        }
        r
    }

    /// Records a melt quote that the mint returned for an invoice; a failed
    /// request is passed on.
    pub fn create_melt_quote(
        &mut self,
        mint_url: &str,
        invoice: &str,
        response: Result<MeltQuoteResponse, WalletError>,
    ) -> (r: Result<MeltQuote, WalletError>)
        requires
            old(self).wf(),
        ensures
            final(self).wf(),
            r is Err ==> final(self).wallets_spec() == old(self).wallets_spec(),
            canonical_mint_url(mint_url@) is None ==> fails_with(r, ErrorKind::InvalidInput),
            canonical_mint_url(mint_url@) is Some && !old(self).has_mint_spec(mint_url@)
                ==> fails_with(r, ErrorKind::NotFound),
            response is Err ==> r is Err,
            forall|i: int|
                #[trigger] old(self).wallet_for(mint_url@, i) && response is Ok ==> (r is Ok
                    <==> !crate::instance::has_melt_quote(
                    old(self).wallets_spec()[i].melt_quotes@,
                    response->Ok_0.id@,
                )),
            r is Ok ==> r->Ok_0.state == MeltQuoteState::Unpaid && r->Ok_0.invoice@ == invoice@
                && r->Ok_0.amount == response->Ok_0.amount && r->Ok_0.fee_reserve
                == response->Ok_0.fee_reserve,
            r is Ok ==> exists|i: int|
                old(self).wallet_for(mint_url@, i) && final(self).same_but(&*old(self), i)
                    && final(self).wallets_spec()[i].melt_quotes@ == old(
                    self,
                ).wallets_spec()[i].melt_quotes@.push(r->Ok_0) && final(self).wallets_spec()[i].store
                    == old(self).wallets_spec()[i].store,
    {
        let i = self.locate(mint_url)?;
        proof {
            assert forall|a: int| #[trigger] self.wallet_for(mint_url@, a) implies a == i by {
                self.lemma_wallet_for_unique(mint_url@, i as int, a);
            }
        }
        let resp = response?;
        let ghost before = self.wallets@;
        let mut w = self.wallets.remove(i);
        assert(before[i as int].wf());
        let r = w.add_melt_quote(resp.id, String::from_str(invoice), resp.amount, resp.fee_reserve);
        self.wallets.insert(i, w);
        proof {
            assert(self.wallets@ =~= before.update(i as int, self.wallets@[i as int]));
            if r is Err {
                assert(self.wallets@ =~= before);
            }
        }
        r
    }

    /// Chooses proofs to cover a melt quote's amount and fee reserve; nothing changes.
    pub fn prepare_melt(&self, mint_url: &str, quote_id: &str) -> (r: Result<PreparedSend, WalletError>)
        requires
            self.wf(),
        ensures
            canonical_mint_url(mint_url@) is None ==> fails_with(r, ErrorKind::InvalidInput),
            canonical_mint_url(mint_url@) is Some && !self.has_mint_spec(mint_url@) ==> fails_with(
                r,
                ErrorKind::NotFound,
            ),
            r is Ok ==> exists|i: int|
                self.wallet_for(mint_url@, i) && views(r->Ok_0.proofs@) == self.wallets_spec()[i].store@.take(
                    r->Ok_0.proofs@.len() as int,
                ) && sum_amounts(views(r->Ok_0.proofs@)) >= r->Ok_0.amount,
            forall|i: int, k: int|
                self.wallet_for(mint_url@, i) && #[trigger] crate::instance::melt_quote_at(
                    self.wallets_spec()[i].melt_quotes@,
                    quote_id@,
                    k,
                ) ==> {
                    let q = self.wallets_spec()[i].melt_quotes@[k];
                    &&& q.state != MeltQuoteState::Unpaid ==> fails_with(r, ErrorKind::StateError)
                    &&& q.state == MeltQuoteState::Unpaid && 0 < q.amount + q.fee_reserve
                        <= self.wallets_spec()[i].balance_spec() ==> r is Ok
                    &&& r is Ok ==> r->Ok_0.amount == q.amount + q.fee_reserve
                },
    {
        let i = self.locate(mint_url)?;
        proof {
            assert forall|a: int| #[trigger] self.wallet_for(mint_url@, a) implies a == i by {
                self.lemma_wallet_for_unique(mint_url@, i as int, a);
            }
        }
        assert(self.wallets@[i as int].wf());
        let r = self.wallets[i].prepare_melt(quote_id);
        r
    }

    /// Records the mint's answer to a melt prepared with `prepare_melt` (see
    /// `WalletInstance::finish_melt`): proofs leave the store only when the quote
    /// becomes `Paid`. A failed melt is passed on and changes nothing.
    pub fn finish_melt(
        &mut self,
        mint_url: &str,
        quote_id: &str,
        prepared: &PreparedSend,
        outcome: Result<MeltOutcome, WalletError>,
        now: u64,
    ) -> (r: Result<MeltQuoteState, WalletError>)
        requires
            old(self).wf(),
        ensures
            final(self).wf(),
            r is Err ==> final(self).wallets_spec() == old(self).wallets_spec(),
            canonical_mint_url(mint_url@) is None ==> fails_with(r, ErrorKind::InvalidInput),
            canonical_mint_url(mint_url@) is Some && !old(self).has_mint_spec(mint_url@)
                ==> fails_with(r, ErrorKind::NotFound),
            r is Ok ==> exists|i: int|
                old(self).wallet_for(mint_url@, i) && final(self).same_but(&*old(self), i),
            r is Ok && r->Ok_0 != MeltQuoteState::Paid ==> exists|i: int|
                old(self).wallet_for(mint_url@, i) && final(self).wallets_spec()[i].store
                    == old(self).wallets_spec()[i].store,
            forall|i: int, k: int|
                old(self).wallet_for(mint_url@, i) && #[trigger] crate::instance::melt_quote_at(
                    old(self).wallets_spec()[i].melt_quotes@,
                    quote_id@,
                    k,
                ) && r is Ok ==> {
                    let before = old(self).wallets_spec()[i];
                    let after = final(self).wallets_spec()[i];
                    let q = before.melt_quotes@[k];
                    &&& r->Ok_0 == crate::quote::melt_after(q.state, outcome->Ok_0.state)
                    &&& after.melt_quotes@[k].state == r->Ok_0
                    &&& r->Ok_0 == MeltQuoteState::Paid && q.state != MeltQuoteState::Paid ==> {
                        &&& after.store@ == merged(
                            before.store@.skip(prepared.proofs@.len() as int),
                            views(outcome->Ok_0.change@),
                        )
                        &&& after.transactions@.take(before.transactions@.len() as int)
                            == before.transactions@
                        &&& after.transactions@.last().direction@ == "outgoing"@
                        &&& after.transactions@.last().amount == q.amount
                        &&& after.transactions@.last().mint_url == before.mint_url
                        &&& after.transactions@.last().fee == sum_amounts(views(prepared.proofs@))
                            - sum_amounts(views(outcome->Ok_0.change@)) - q.amount
                    }
                },
            outcome is Err ==> r is Err,
            forall|i: int|
                #[trigger] old(self).wallet_for(mint_url@, i) && outcome is Ok
                    && !crate::instance::has_melt_quote(
                    old(self).wallets_spec()[i].melt_quotes@,
                    quote_id@,
                ) ==> fails_with(r, ErrorKind::NotFound),
            forall|i: int, k: int|
                old(self).wallet_for(mint_url@, i) && #[trigger] crate::instance::melt_quote_at(
                    old(self).wallets_spec()[i].melt_quotes@,
                    quote_id@,
                    k,
                ) && outcome is Ok ==> {
                    let before = old(self).wallets_spec()[i];
                    let q = before.melt_quotes@[k];
                    let next = crate::quote::melt_after(q.state, outcome->Ok_0.state);
                    &&& !(next == MeltQuoteState::Paid && q.state != MeltQuoteState::Paid) ==> r is Ok
                    &&& next == MeltQuoteState::Paid && q.state != MeltQuoteState::Paid
                        && sum_amounts(views(outcome->Ok_0.change@)) + q.amount <= sum_amounts(
                        views(prepared.proofs@),
                    ) && prepared.proofs@.len() <= before.store@.len() && before.store@.take(
                        prepared.proofs@.len() as int,
                    ) == views(prepared.proofs@) ==> r is Ok
                },
    {
        let i = self.locate(mint_url)?;
        proof {
            assert forall|a: int| #[trigger] self.wallet_for(mint_url@, a) implies a == i by {
                self.lemma_wallet_for_unique(mint_url@, i as int, a);
            }
        }
        let outcome = outcome?;
        let id = self.take_id();
        let ghost before = self.wallets@;
        let mut w = self.wallets.remove(i);
        assert(before[i as int].wf());
        let r = w.finish_melt(quote_id, prepared, outcome, now, id);
        self.wallets.insert(i, w);
        proof {
            assert(self.wallets@ =~= before.update(i as int, self.wallets@[i as int]));
            if r is Err {
                assert(self.wallets@ =~= before);
            }
            if r is Ok && r->Ok_0 != MeltQuoteState::Paid {
                let qs = before[i as int].melt_quotes@;
                let k = choose|k: int| crate::instance::melt_quote_at(qs, quote_id@, k);
                assert(crate::instance::melt_quote_at(qs, quote_id@, k));
            }
            assert forall|a: int| #[trigger] old(self).wallet_for(mint_url@, a) implies a == i by {
                old(self).lemma_wallet_for_unique(mint_url@, i as int, a);
            }
        }
        r
    }

    /// Every ledger entry of every wallet, each once, ordered by time.
    pub fn get_all_transactions(&self) -> (r: Vec<TransactionInfo>)
        ensures
            by_time(tx_views(r@)),
            tx_views(r@).to_multiset() == all_transactions(self.wallets_spec()).to_multiset(),
    {
        let mut out: Vec<TransactionInfo> = Vec::new();
        let mut i: usize = 0;
        proof {
            assert(tx_views(out@) =~= Seq::<TxView>::empty());
            assert(all_transactions(self.wallets@.take(0)) =~= Seq::<TxView>::empty());
        }
        while i < self.wallets.len()
            invariant
                i <= self.wallets.len(),
                by_time(tx_views(out@)),
                tx_views(out@).to_multiset() == all_transactions(self.wallets@.take(i as int)).to_multiset(),
            decreases self.wallets.len() - i,
        {
            let ledger = &self.wallets[i].transactions;
            let ghost prev = all_transactions(self.wallets@.take(i as int));
            let mut j: usize = 0;
            assert(prev + tx_views(ledger@).take(0) =~= prev);
            while j < ledger.len()
                invariant
                    j <= ledger.len(),
                    by_time(tx_views(out@)),
                    tx_views(out@).to_multiset() == (prev + tx_views(ledger@).take(
                        j as int,
                    )).to_multiset(),
                decreases ledger.len() - j,
            {
                let t = ledger[j].copied();
                insert_by_time(&mut out, t);
                proof {
                    let tv = tx_views(ledger@);
                    assert(prev + tv.take(j as int + 1) =~= (prev + tv.take(j as int)).push(
                        tv[j as int],
                    ));
                    vstd::seq_lib::to_multiset_build(prev + tv.take(j as int), tv[j as int]);
                }
                j += 1;
            }
            proof {
                let ws = self.wallets@.take(i as int + 1);
                assert(ws.drop_last() =~= self.wallets@.take(i as int));
                assert(tx_views(ledger@).take(j as int) =~= tx_views(ledger@));
            }
            i += 1;
        }
        proof {
            assert(self.wallets@.take(i as int) =~= self.wallets@);
        }
        out
    }
}

} // verus!
