use vstd::prelude::*;
use crate::error::{ErrorKind, WalletError, fails_with};
use crate::proofs::{
    CashuProof, ProofView, views, sum_amounts, has_secret, secrets_unique, lemma_sum_push,
    lemma_sum_remove, lemma_sum_take_step, lemma_sum_split,
};

verus! {

/// The unspent proofs of one wallet, unique by secret, with their balance.
#[derive(Debug)]
pub struct ProofStore {
    proofs: Vec<CashuProof>,
    balance: u64,
}

/// Proofs chosen to cover an amount: the first `proofs.len()` proofs of the store.
#[derive(Debug)]
pub struct PreparedSend {
    pub amount: u64,
    pub proofs: Vec<CashuProof>,
}

impl View for ProofStore {
    type V = Seq<ProofView>;

    closed spec fn view(&self) -> Seq<ProofView> {
        views(self.proofs@)
    }
}

/// `s` followed by those proofs of `new` whose secret is not yet present, in order.
pub open spec fn merged(s: Seq<ProofView>, new: Seq<ProofView>) -> Seq<ProofView>
    decreases new.len(),
{
    if new.len() == 0 {
        s
    } else {
        let m = merged(s, new.drop_last());
        if has_secret(m, new.last().secret) {
            m
        } else {
            m.push(new.last())
        }
    }
}

pub proof fn lemma_merged_bounds(s: Seq<ProofView>, new: Seq<ProofView>)
    requires
        secrets_unique(s),
    ensures
        secrets_unique(merged(s, new)),
        sum_amounts(s) <= sum_amounts(merged(s, new)) <= sum_amounts(s) + sum_amounts(new),
        forall|x: Seq<char>| has_secret(s, x) ==> has_secret(merged(s, new), x),
    decreases new.len(),
{
    if new.len() > 0 {
        let m = merged(s, new.drop_last());
        lemma_merged_bounds(s, new.drop_last());
        if !has_secret(m, new.last().secret) {
            lemma_sum_push(m, new.last());
            let m2 = m.push(new.last());
            assert forall|x: Seq<char>| has_secret(m, x) implies has_secret(m2, x) by {
                let i = choose|i: int| 0 <= i < m.len() && #[trigger] m[i].secret == x;
                assert(m2[i].secret == x);
            }
        }
    }
}

impl ProofStore {
    /// The store's invariant: the balance is the sum of the amounts, and no two
    /// proofs share a secret.
    pub closed spec fn wf(&self) -> bool {
        &&& self.balance as nat == sum_amounts(self@)
        &&& secrets_unique(self@)
    }

    pub fn new() -> (r: ProofStore)
        ensures
            r.wf(),
            r@ == Seq::<ProofView>::empty(),
    {
        let r = ProofStore { proofs: Vec::new(), balance: 0 };
        assert(r@ =~= Seq::<ProofView>::empty());
        r
    }

    /// The sum of the amounts of the proofs held.
    pub fn balance(&self) -> (r: u64)
        requires
            self.wf(),
        ensures
            r as nat == sum_amounts(self@),
    {
        self.balance
    }

    pub fn len(&self) -> (r: usize)
        ensures
            r == self@.len(),
    {
        self.proofs.len()
    }

    /// The position of the proof with the given secret, if any.
    fn find(&self, secret: &str) -> (r: Option<usize>)
        ensures
            r is None <==> !has_secret(self@, secret@),
            r is Some ==> r->0 < self@.len() && self@[r->0 as int].secret == secret@,
    {
        let wanted = String::from_str(secret);
        let mut i: usize = 0;
        while i < self.proofs.len()
            invariant
                i <= self.proofs.len(),
                wanted@ == secret@,
                forall|j: int| 0 <= j < i ==> self@[j].secret != secret@,
            decreases self.proofs.len() - i,
        {
            if self.proofs[i].secret == wanted {
                assert(self@[i as int].secret == secret@);
                return Some(i);
            }
            i += 1;
        }
        None
    }

    /// Whether a proof with the given secret is held.
    pub fn contains(&self, secret: &str) -> (r: bool)
        ensures
            r == has_secret(self@, secret@),
    {
        self.find(secret).is_some()
    }

    /// Inserts a proof. A proof whose secret is already held is refused with
    /// `DuplicateProof`, and one that would carry the balance past `u64::MAX`
    /// with `InvalidInput`; either way the store is unchanged.
    pub fn add(&mut self, proof: CashuProof) -> (r: Result<(), WalletError>)
        requires
            old(self).wf(),
        ensures
            final(self).wf(),
            r is Err ==> *final(self) == *old(self),
            has_secret(old(self)@, proof.secret@) ==> fails_with(r, ErrorKind::DuplicateProof)
                && final(self)@ == old(self)@,
            !has_secret(old(self)@, proof.secret@) && sum_amounts(old(self)@) + proof.amount
                > u64::MAX ==> fails_with(r, ErrorKind::InvalidInput) && final(self)@ == old(
                self,
            )@,
            !has_secret(old(self)@, proof.secret@) && sum_amounts(old(self)@) + proof.amount
                <= u64::MAX ==> r is Ok && final(self)@ == old(self)@.push(proof@),
    {
        if self.find(proof.secret.as_str()).is_some() {
            return Err(WalletError::new(ErrorKind::DuplicateProof, "proof already held"));
        }
        if proof.amount > u64::MAX - self.balance {
            return Err(WalletError::new(ErrorKind::InvalidInput, "balance would overflow"));
        }
        let ghost before = self@;
        proof {
            lemma_sum_push(before, proof@);
        }
        self.balance = self.balance + proof.amount;
        self.proofs.push(proof);
        assert(self@ =~= before.push(proof@));
        Ok(())
    }

    /// Removes the proof with the given secret; says whether one was held.
    pub fn remove(&mut self, secret: &str) -> (r: bool)
        requires
            old(self).wf(),
        ensures
            final(self).wf(),
            r == has_secret(old(self)@, secret@),
            !r ==> *final(self) == *old(self),
            r ==> exists|i: int|
                0 <= i < old(self)@.len() && old(self)@[i].secret == secret@ && final(self)@
                    == old(self)@.remove(i),
    {
        match self.find(secret) {
            None => false,
            Some(i) => {
                let ghost before = self@;
                proof {
                    lemma_sum_remove(before, i as int);
                }
                let p = self.proofs.remove(i);
                self.balance = self.balance - p.amount;
                assert(self@ =~= before.remove(i as int));
                true
            },
        }
    }

    /// A copy of the unspent proofs, in the store's order.
    pub fn unspent(&self) -> (r: Vec<CashuProof>)
        ensures
            views(r@) == self@,
    {
        let mut out: Vec<CashuProof> = Vec::new();
        let mut i: usize = 0;
        while i < self.proofs.len()
            invariant
                i <= self.proofs.len(),
                views(out@) =~= self@.take(i as int),
            decreases self.proofs.len() - i,
        {
            let p = self.proofs[i].copied();
            proof {
                lemma_views_push(out@, p);
            }
            out.push(p);
            i += 1;
        }
        assert(self@.take(i as int) =~= self@);
        out
    }

    /// Chooses the shortest prefix of the proofs whose amounts cover `amount`.
    /// Nothing is changed. A zero amount is `InvalidInput`; an amount over the
    /// balance is `InsufficientBalance`.
    pub fn prepare_send(&self, amount: u64) -> (r: Result<PreparedSend, WalletError>)
        requires
            self.wf(),
        ensures
            amount == 0 <==> fails_with(r, ErrorKind::InvalidInput),
            amount > 0 && amount > sum_amounts(self@) <==> fails_with(
                r,
                ErrorKind::InsufficientBalance,
            ),
            r is Ok <==> 0 < amount <= sum_amounts(self@),
            r is Ok ==> {
                let p = r->Ok_0;
                &&& p.amount == amount
                &&& p.proofs@.len() <= self@.len()
                &&& views(p.proofs@) == self@.take(p.proofs@.len() as int)
                &&& sum_amounts(views(p.proofs@)) >= amount
                &&& p.proofs@.len() > 0 ==> sum_amounts(self@.take(p.proofs@.len() - 1)) < amount
            },
    {
        if amount == 0 {
            return Err(WalletError::new(ErrorKind::InvalidInput, "amount must be positive"));
        }
        if amount > self.balance {
            return Err(WalletError::new(ErrorKind::InsufficientBalance, "insufficient balance"));
        }
        let mut chosen: Vec<CashuProof> = Vec::new();
        let mut total: u64 = 0;
        let mut i: usize = 0;
        while total < amount
            invariant
                self.wf(),
                i <= self.proofs.len(),
                0 < amount <= sum_amounts(self@),
                total as nat == sum_amounts(self@.take(i as int)),
                views(chosen@) =~= self@.take(i as int),
                i > 0 ==> sum_amounts(self@.take(i - 1)) < amount,
            decreases self.proofs.len() - i,
        {
            if i == self.proofs.len() {
                assert(self@.take(i as int) =~= self@);
                assert(false);
            }
            proof {
                lemma_sum_take_step(self@, i as int);
                lemma_sum_split(self@, i as int + 1);
            }
            total = total + self.proofs[i].amount;
            let p = self.proofs[i].copied();
            proof {
                lemma_views_push(chosen@, p);
            }
            chosen.push(p);
            i += 1;
        }
        Ok(PreparedSend { amount, proofs: chosen })
    }

    /// Whether the store still starts with the proofs of `prepared`.
    fn starts_with(&self, prepared: &PreparedSend) -> (r: bool)
        ensures
            r == (prepared.proofs@.len() <= self@.len() && self@.take(
                prepared.proofs@.len() as int,
            ) == views(prepared.proofs@)),
    {
        let n = prepared.proofs.len();
        if n > self.proofs.len() {
            return false;
        }
        let mut i: usize = 0;
        while i < n
            invariant
                n == prepared.proofs@.len(),
                n <= self.proofs@.len(),
                i <= n,
                forall|j: int| 0 <= j < i ==> self@[j] == views(prepared.proofs@)[j],
            decreases n - i,
        {
            if !self.proofs[i].same_as(&prepared.proofs[i]) {
                assert(self@.take(n as int)[i as int] != views(prepared.proofs@)[i as int]);
                return false;
            }
            i += 1;
        }
        assert(self@.take(n as int) =~= views(prepared.proofs@));
        true
    }

    /// Removes the proofs chosen by `prepared_send`. Where the store no longer
    /// starts with them it is left unchanged and the result is `StateError`.
    pub fn take_prepared(&mut self, prepared: &PreparedSend) -> (r: Result<(), WalletError>)
        requires
            old(self).wf(),
        ensures
            final(self).wf(),
            r is Ok <==> (prepared.proofs@.len() <= old(self)@.len() && old(self)@.take(
                prepared.proofs@.len() as int,
            ) == views(prepared.proofs@)),
            r is Ok ==> final(self)@ == old(self)@.skip(prepared.proofs@.len() as int),
            r is Err ==> fails_with(r, ErrorKind::StateError) && *final(self) == *old(self),
    {
        if !self.starts_with(prepared) {
            return Err(WalletError::new(ErrorKind::StateError, "prepared proofs are no longer held"));
        }
        let n = prepared.proofs.len();
        let ghost before = self@;
        let mut rest: Vec<CashuProof> = Vec::new();
        let mut i: usize = n;
        while i < self.proofs.len()
            invariant
                n <= i <= self.proofs.len(),
                self@ == before,
                views(rest@) =~= before.subrange(n as int, i as int),
            decreases self.proofs.len() - i,
        {
            let p = self.proofs[i].copied();
            proof {
                lemma_views_push(rest@, p);
            }
            rest.push(p);
            i += 1;
        }
        proof {
            lemma_sum_split(before, n as int);
            assert(before.subrange(n as int, i as int) =~= before.skip(n as int));
            assert forall|a: int, b: int|
                0 <= a < before.skip(n as int).len() && 0 <= b < before.skip(n as int).len() && a
                    != b implies #[trigger] before.skip(n as int)[a].secret != #[trigger] before.skip(
                n as int,
            )[b].secret by {
                assert(before[a + n].secret != before[b + n].secret);
            }
        }
        self.balance = self.balance - sum_of(&prepared.proofs, self.balance);
        self.proofs = rest;
        Ok(())
    }

    /// Adds those of `new` whose secret is not yet held, in order, and returns the
    /// amount added. Where the balance could overflow nothing is added and the
    /// result is `InvalidInput`.
    pub fn add_all(&mut self, new: &Vec<CashuProof>) -> (r: Result<u64, WalletError>)
        requires
            old(self).wf(),
        ensures
            final(self).wf(),
            sum_amounts(old(self)@) + sum_amounts(views(new@)) <= u64::MAX ==> r is Ok
                && final(self)@ == merged(old(self)@, views(new@)) && r->Ok_0 == sum_amounts(
                final(self)@,
            ) - sum_amounts(old(self)@),
            sum_amounts(old(self)@) + sum_amounts(views(new@)) > u64::MAX ==> fails_with(
                r,
                ErrorKind::InvalidInput,
            ) && final(self)@ == old(self)@,
            r is Err ==> *final(self) == *old(self),
    {
        let total = match checked_sum(new) {
            Some(t) => t,
            None => {
                return Err(WalletError::new(ErrorKind::InvalidInput, "amounts overflow"));
            },
        };
        if total > u64::MAX - self.balance {
            return Err(WalletError::new(ErrorKind::InvalidInput, "balance would overflow"));
        }
        let ghost before = self@;
        let start = self.balance;
        let mut i: usize = 0;
        while i < new.len()
            invariant
                self.wf(),
                i <= new.len(),
                sum_amounts(before) + sum_amounts(views(new@)) <= u64::MAX,
                secrets_unique(before),
                self@ == merged(before, views(new@).take(i as int)),
                start as nat == sum_amounts(before),
            decreases new.len() - i,
        {
            let ghost cur = self@;
            proof {
                let t = views(new@).take(i as int + 1);
                assert(t.drop_last() =~= views(new@).take(i as int));
                assert(t.last() == new@[i as int]@);
                lemma_merged_bounds(before, t);
                lemma_sum_split(views(new@), i as int + 1);
            }
            let p = new[i].copied();
            proof {
                lemma_sum_push(cur, p@);
                let t = views(new@).take(i as int + 1);
                assert(sum_amounts(views(new@).take(i as int + 1)) <= sum_amounts(views(new@)));
                if !has_secret(cur, p.secret@) {
                    assert(merged(before, t) == cur.push(p@));
                } else {
                    assert(merged(before, t) == cur);
                }
            }
            let _ = self.add(p);
            proof {
                assert(self@ == merged(before, views(new@).take(i as int + 1)));
            }
            i += 1;
        }
        proof {
            assert(views(new@).take(i as int) =~= views(new@));
            lemma_merged_bounds(before, views(new@));
        }
        Ok(self.balance - start)
    }
}

/// A well-formed store's balance fits in a `u64`.
pub proof fn lemma_store_bounded(s: &ProofStore)
    requires
        s.wf(),
    ensures
        sum_amounts(s@) <= u64::MAX,
{
}

pub proof fn lemma_views_push(s: Seq<CashuProof>, p: CashuProof)
    ensures
        views(s.push(p)) == views(s).push(p@),
{
    assert(views(s.push(p)) =~= views(s).push(p@));
}

/// The sum of the amounts of `proofs`, when it is at most `bound`.
fn sum_of(proofs: &Vec<CashuProof>, bound: u64) -> (r: u64)
    requires
        sum_amounts(views(proofs@)) <= bound,
    ensures
        r as nat == sum_amounts(views(proofs@)),
{
    let mut total: u64 = 0;
    let mut i: usize = 0;
    while i < proofs.len()
        invariant
            i <= proofs.len(),
            sum_amounts(views(proofs@)) <= bound,
            total as nat == sum_amounts(views(proofs@).take(i as int)),
        decreases proofs.len() - i,
    {
        proof {
            lemma_sum_take_step(views(proofs@), i as int);
            lemma_sum_split(views(proofs@), i as int + 1);
        }
        total = total + proofs[i].amount;
        i += 1;
    }
    assert(views(proofs@).take(i as int) =~= views(proofs@));
    total
}

/// The sum of the amounts of `proofs`, or `None` where it exceeds `u64::MAX`.
pub fn checked_sum(proofs: &Vec<CashuProof>) -> (r: Option<u64>)
    ensures
        r is Some <==> sum_amounts(views(proofs@)) <= u64::MAX,
        r is Some ==> r->0 as nat == sum_amounts(views(proofs@)),
{
    let mut total: u64 = 0;
    let mut i: usize = 0;
    while i < proofs.len()
        invariant
            i <= proofs.len(),
            total as nat == sum_amounts(views(proofs@).take(i as int)),
        decreases proofs.len() - i,
    {
        proof {
            lemma_sum_take_step(views(proofs@), i as int);
            lemma_sum_split(views(proofs@), i as int + 1);
        }
        if proofs[i].amount > u64::MAX - total {
            return None;
        }
        total = total + proofs[i].amount;
        i += 1;
    }
    assert(views(proofs@).take(i as int) =~= views(proofs@));
    Some(total)
}

} // verus!
