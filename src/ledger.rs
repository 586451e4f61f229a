use vstd::prelude::*;
use crate::text::copy_opt;

verus! {

/// One entry of the append-only ledger of a wallet.
#[derive(Debug, Clone)]
pub struct TransactionInfo {
    pub id: String,
    /// "incoming" or "outgoing".
    pub direction: String,
    pub amount: u64,
    pub fee: u64,
    pub memo: Option<String>,
    pub timestamp: u64,
    pub mint_url: String,
    /// "mint", "melt", "ecash_send" or "ecash_receive".
    pub transaction_type: Option<String>,
    pub lightning_invoice: Option<String>,
    pub ecash_token: Option<String>,
    pub metadata: Vec<(String, String)>,
}

/// A ledger entry as a value.
pub struct TxView {
    pub id: String,
    pub direction: String,
    pub amount: u64,
    pub fee: u64,
    pub memo: Option<String>,
    pub timestamp: u64,
    pub mint_url: String,
    pub transaction_type: Option<String>,
    pub lightning_invoice: Option<String>,
    pub ecash_token: Option<String>,
    pub metadata: Seq<(String, String)>,
}

impl View for TransactionInfo {
    type V = TxView;

    open spec fn view(&self) -> TxView {
        TxView {
            id: self.id,
            direction: self.direction,
            amount: self.amount,
            fee: self.fee,
            memo: self.memo,
            timestamp: self.timestamp,
            mint_url: self.mint_url,
            transaction_type: self.transaction_type,
            lightning_invoice: self.lightning_invoice,
            ecash_token: self.ecash_token,
            metadata: self.metadata@,
        }
    }
}

/// The views of a sequence of ledger entries.
pub open spec fn tx_views(s: Seq<TransactionInfo>) -> Seq<TxView> {
    s.map_values(|t: TransactionInfo| t@)
}

impl TransactionInfo {
    /// A copy of the entry, field by field.
    pub fn copied(&self) -> (r: TransactionInfo)
        ensures
            r@ == self@,
    {
        let mut metadata: Vec<(String, String)> = Vec::new();
        let mut i: usize = 0;
        while i < self.metadata.len()
            invariant
                i <= self.metadata.len(),
                metadata@ == self.metadata@.take(i as int),
            decreases self.metadata.len() - i,
        {
            let (k, v) = &self.metadata[i];
            metadata.push((k.clone(), v.clone()));
            assert(self.metadata@.take(i as int + 1) == self.metadata@.take(i as int).push(
                self.metadata@[i as int],
            ));
            i += 1;
        }
        assert(self.metadata@.take(i as int) == self.metadata@);
        TransactionInfo {
            id: self.id.clone(),
            direction: self.direction.clone(),
            amount: self.amount,
            fee: self.fee,
            memo: copy_opt(&self.memo),
            timestamp: self.timestamp,
            mint_url: self.mint_url.clone(),
            transaction_type: copy_opt(&self.transaction_type),
            lightning_invoice: copy_opt(&self.lightning_invoice),
            ecash_token: copy_opt(&self.ecash_token),
            metadata,
        }
    }
}

/// Builds a ledger entry whose metadata records its type.
pub fn new_transaction(
    id: String,
    incoming: bool,
    kind: &str,
    amount: u64,
    fee: u64,
    memo: Option<String>,
    timestamp: u64,
    mint_url: String,
) -> (r: TransactionInfo)
    ensures
        r.id == id,
        r.direction@ == (if incoming { "incoming"@ } else { "outgoing"@ }),
        r.amount == amount,
        r.fee == fee,
        r.memo == memo,
        r.timestamp == timestamp,
        r.mint_url == mint_url,
        r.transaction_type is Some && r.transaction_type->0@ == kind@,
        r.lightning_invoice is None,
        r.ecash_token is None,
        r.metadata@.len() == 1,
        r.metadata@[0].0@ == "transaction_type"@,
        r.metadata@[0].1@ == kind@,
{
    let direction = if incoming {
        String::from_str("incoming")
    } else {
        String::from_str("outgoing")
    };
    let mut metadata: Vec<(String, String)> = Vec::new();
    metadata.push((String::from_str("transaction_type"), String::from_str(kind)));
    TransactionInfo {
        id,
        direction,
        amount,
        fee,
        memo,
        timestamp,
        mint_url,
        transaction_type: Some(String::from_str(kind)),
        lightning_invoice: None,
        ecash_token: None,
        metadata,
    }
}

/// The timestamps of `s` never decrease.
pub open spec fn by_time(s: Seq<TxView>) -> bool {
    forall|i: int, j: int| 0 <= i <= j < s.len() ==> #[trigger] s[i].timestamp <= #[trigger] s[j].timestamp
}

/// Inserts `t` after every entry of `sorted` that is not later than it, keeping
/// the order by time.
pub fn insert_by_time(sorted: &mut Vec<TransactionInfo>, t: TransactionInfo)
    requires
        by_time(tx_views(old(sorted)@)),
    ensures
        by_time(tx_views(final(sorted)@)),
        tx_views(final(sorted)@).to_multiset() == tx_views(old(sorted)@).to_multiset().insert(t@),
{
    let ghost before = tx_views(sorted@);
    let mut i: usize = sorted.len();
    while i > 0 && sorted[i - 1].timestamp > t.timestamp
        invariant
            i <= sorted.len(),
            sorted@ == old(sorted)@,
            forall|k: int| i <= k < sorted.len() ==> tx_views(sorted@)[k].timestamp > t.timestamp,
        decreases i,
    {
        i -= 1;
    }
    let ghost tv = t@;
    sorted.insert(i, t);
    proof {
        assert(tx_views(sorted@) =~= before.insert(i as int, tv));
        vstd::seq_lib::to_multiset_insert(before, i as int, tv);
        let s = tx_views(sorted@);
        assert forall|a: int, b: int| 0 <= a <= b < s.len() implies #[trigger] s[a].timestamp
            <= #[trigger] s[b].timestamp by {
            if a < i && b > i {
                assert(before[a].timestamp <= before[b - 1].timestamp);
            } else if a < i && b == i {
            } else if a == i && b > i {
                assert(before[b - 1].timestamp > tv.timestamp);
            } else if a > i {
                assert(before[a - 1].timestamp <= before[b - 1].timestamp);
            } else {
                assert(before[a].timestamp <= before[b].timestamp);
            }
        }
    }
}

} // verus!
