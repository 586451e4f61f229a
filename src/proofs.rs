use vstd::prelude::*;
use crate::error::{ErrorKind, WalletError, fails_with};

verus! {

/// A bearer token unit issued by a mint, identified by its secret.
#[derive(Debug, Clone)]
pub struct CashuProof {
    pub id: String,
    pub amount: u64,
    pub secret: String,
    pub c: String,
}

/// What a proof holds, as mathematical values.
pub struct ProofView {
    pub id: Seq<char>,
    pub amount: u64,
    pub secret: Seq<char>,
    pub c: Seq<char>,
}

impl View for CashuProof {
    type V = ProofView;

    open spec fn view(&self) -> ProofView {
        ProofView { id: self.id@, amount: self.amount, secret: self.secret@, c: self.c@ }
    }
}

impl CashuProof {
    /// A copy of the proof, field by field.
    pub fn copied(&self) -> (r: CashuProof)
        ensures
            r@ == self@,
    {
        CashuProof {
            id: self.id.clone(),
            amount: self.amount,
            secret: self.secret.clone(),
            c: self.c.clone(),
        }
    }

    /// Whether two proofs hold the same values.
    pub fn same_as(&self, other: &CashuProof) -> (r: bool)
        ensures
            r == (self@ == other@),
    {
        self.amount == other.amount && self.id == other.id && self.secret == other.secret
            && self.c == other.c
    }
}

/// Builds a proof from its four parts.
pub fn create_cashu_proof(id: String, amount: u64, secret: String, c: String) -> (r: CashuProof)
    ensures
        r@ == (ProofView { id: id@, amount, secret: secret@, c: c@ }),
{
    CashuProof { id, amount, secret, c }
}

/// Checks a proof's shape. A proof without a secret cannot be identified and is
/// rejected; otherwise the result says whether it carries a nonzero amount, a
/// keyset id and a signature.
pub fn validate_cashu_proof(proof: CashuProof) -> (r: Result<bool, WalletError>)
    ensures
        proof.secret@.len() == 0 <==> fails_with(r, ErrorKind::InvalidInput),
        proof.secret@.len() != 0 ==> r == Ok::<bool, WalletError>(
            proof.amount > 0 && proof.id@.len() > 0 && proof.c@.len() > 0,
        ),
{
    if proof.secret.as_str().unicode_len() == 0 {
        return Err(WalletError::new(ErrorKind::InvalidInput, "proof has no secret"));
    }
    Ok(proof.amount > 0 && proof.id.as_str().unicode_len() > 0 && proof.c.as_str().unicode_len() > 0)
}

/// The views of a sequence of proofs.
pub open spec fn views(s: Seq<CashuProof>) -> Seq<ProofView> {
    s.map_values(|p: CashuProof| p@)
}

/// Sum of the amounts of a sequence of proofs.
pub open spec fn sum_amounts(s: Seq<ProofView>) -> nat
    decreases s.len(),
{
    if s.len() == 0 {
        0
    } else {
        sum_amounts(s.drop_last()) + s.last().amount as nat
    }
}

/// Some proof of `s` has the secret `secret`.
pub open spec fn has_secret(s: Seq<ProofView>, secret: Seq<char>) -> bool {
    exists|i: int| 0 <= i < s.len() && #[trigger] s[i].secret == secret
}

/// No two proofs of `s` share a secret.
pub open spec fn secrets_unique(s: Seq<ProofView>) -> bool {
    forall|i: int, j: int|
        0 <= i < s.len() && 0 <= j < s.len() && i != j ==> #[trigger] s[i].secret != #[trigger] s[j].secret
}

pub proof fn lemma_sum_push(s: Seq<ProofView>, p: ProofView)
    ensures
        sum_amounts(s.push(p)) == sum_amounts(s) + p.amount,
{
    assert(s.push(p).drop_last() =~= s);
}

pub proof fn lemma_sum_concat(a: Seq<ProofView>, b: Seq<ProofView>)
    ensures
        sum_amounts(a + b) == sum_amounts(a) + sum_amounts(b),
    decreases b.len(),
{
    if b.len() == 0 {
        assert(a + b =~= a);
    } else {
        lemma_sum_concat(a, b.drop_last());
        assert((a + b).drop_last() =~= a + b.drop_last());
    }
}

pub proof fn lemma_sum_remove(s: Seq<ProofView>, i: int)
    requires
        0 <= i < s.len(),
    ensures
        sum_amounts(s) == sum_amounts(s.remove(i)) + s[i].amount,
{
    assert(s =~= s.take(i) + s.skip(i));
    assert(s.remove(i) =~= s.take(i) + s.skip(i + 1));
    assert(s.skip(i) =~= seq![s[i]] + s.skip(i + 1));
    lemma_sum_concat(s.take(i), s.skip(i));
    lemma_sum_concat(s.take(i), s.skip(i + 1));
    lemma_sum_concat(seq![s[i]], s.skip(i + 1));
    assert(seq![s[i]].drop_last() =~= Seq::<ProofView>::empty());
    assert(sum_amounts(seq![s[i]]) == sum_amounts(Seq::<ProofView>::empty()) + s[i].amount);
}

pub proof fn lemma_sum_take_step(s: Seq<ProofView>, k: int)
    requires
        0 <= k < s.len(),
    ensures
        sum_amounts(s.take(k + 1)) == sum_amounts(s.take(k)) + s[k].amount,
{
    assert(s.take(k + 1).drop_last() =~= s.take(k));
}

pub proof fn lemma_sum_split(s: Seq<ProofView>, k: int)
    requires
        0 <= k <= s.len(),
    ensures
        sum_amounts(s) == sum_amounts(s.take(k)) + sum_amounts(s.skip(k)),
{
    assert(s =~= s.take(k) + s.skip(k));
    lemma_sum_concat(s.take(k), s.skip(k));
}

} // verus!
