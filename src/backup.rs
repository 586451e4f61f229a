use vstd::prelude::*;
use crate::error::{ErrorKind, WalletError, fails_with};
use crate::identity::{
    nip44_encrypt, nip44_decrypt, secret_key_valid, public_key_valid, nip44_plaintext,
};
use crate::proofs::{CashuProof, ProofView, views, sum_amounts, lemma_sum_concat};
use crate::store::{ProofStore, merged, lemma_merged_bounds};
use crate::text::{strs, chars_of, string_of, push_char};

verus! {

/// What a new device needs to start over: a reference to the private key and
/// the mints in use.
#[derive(Debug, Clone)]
pub struct WalletRecord {
    pub privkey_reference: String,
    pub mints: Vec<String>,
}

/// A snapshot of the proofs held at one mint, with the ids of the earlier
/// records it supersedes.
#[derive(Debug, Clone)]
pub struct TokenRecord {
    pub id: String,
    pub mint_url: String,
    pub proofs: Vec<CashuProof>,
    pub deleted_token_ids: Vec<String>,
    pub created_at: u64,
}

/// `s` holds no line break.
pub open spec fn one_line(s: Seq<char>) -> bool {
    forall|i: int| 0 <= i < s.len() ==> s[i] != '\n'
}

/// The lines, joined with line breaks.
pub open spec fn join_lines(lines: Seq<Seq<char>>) -> Seq<char>
    decreases lines.len(),
{
    if lines.len() <= 1 {
        if lines.len() == 0 {
            Seq::empty()
        } else {
            lines[0]
        }
    } else {
        join_lines(lines.drop_last()) + seq!['\n'] + lines.last()
    }
}

/// The lines of `s`: the pieces between line breaks, at least one.
pub open spec fn split_lines(s: Seq<char>) -> Seq<Seq<char>>
    decreases s.len(),
{
    if s.len() == 0 {
        seq![Seq::<char>::empty()]
    } else {
        let prev = split_lines(s.drop_last());
        if s.last() == '\n' {
            prev.push(Seq::<char>::empty())
        } else {
            prev.update(prev.len() - 1, prev.last().push(s.last()))
        }
    }
}

/// The text of a wallet record: the key reference, then each mint, one per line.
pub open spec fn wallet_record_text(r: WalletRecord) -> Seq<char> {
    join_lines(seq![r.privkey_reference@] + strs(r.mints@))
}

proof fn lemma_split_len(s: Seq<char>)
    ensures
        split_lines(s).len() >= 1,
    decreases s.len(),
{
    if s.len() > 0 {
        lemma_split_len(s.drop_last());
    }
}

proof fn lemma_split_append_line(p: Seq<char>, q: Seq<char>)
    requires
        one_line(q),
    ensures
        split_lines(p + q) == {
            let sp = split_lines(p);
            sp.update(sp.len() - 1, sp.last() + q)
        },
    decreases q.len(),
{
    lemma_split_len(p);
    if q.len() == 0 {
        assert(p + q =~= p);
        let sp = split_lines(p);
        assert(sp.last() + q =~= sp.last());
        assert(sp.update(sp.len() - 1, sp.last()) =~= sp);
    } else {
        lemma_split_append_line(p, q.drop_last());
        assert((p + q).drop_last() =~= p + q.drop_last());
        let sp = split_lines(p);
        assert((sp.last() + q.drop_last()).push(q.last()) =~= sp.last() + q);
        assert(sp.update(sp.len() - 1, sp.last() + q.drop_last()).update(
            sp.len() - 1,
            sp.last() + q,
        ) =~= sp.update(sp.len() - 1, sp.last() + q));
    }
}

proof fn lemma_split_new_line(p: Seq<char>, q: Seq<char>)
    requires
        one_line(q),
    ensures
        split_lines(p + seq!['\n'] + q) == split_lines(p).push(q),
{
    let pn = p + seq!['\n'];
    assert(pn.drop_last() =~= p);
    lemma_split_len(p);
    lemma_split_append_line(pn, q);
    let sp = split_lines(pn);
    assert(sp == split_lines(p).push(Seq::<char>::empty()));
    assert(Seq::<char>::empty() + q =~= q);
    assert(sp.update(sp.len() - 1, sp.last() + q) =~= split_lines(p).push(q));
}

/// Splitting joined lines gives them back, when none holds a line break.
pub proof fn lemma_lines_round_trip(lines: Seq<Seq<char>>)
    requires
        lines.len() >= 1,
        forall|i: int| 0 <= i < lines.len() ==> one_line(#[trigger] lines[i]),
    ensures
        split_lines(join_lines(lines)) == lines,
    decreases lines.len(),
{
    if lines.len() == 1 {
        lemma_split_append_line(Seq::<char>::empty(), lines[0]);
        assert(Seq::<char>::empty() + lines[0] =~= lines[0]);
        assert(split_lines(Seq::<char>::empty()).update(0, Seq::<char>::empty() + lines[0]) =~= lines);
    } else {
        let init = lines.drop_last();
        lemma_lines_round_trip(init);
        lemma_split_new_line(join_lines(init), lines.last());
        assert(init.push(lines.last()) =~= lines);
    }
}

/// Decoding the text of a wallet record gives the record back, when neither the
/// key reference nor a mint holds a line break.
pub proof fn lemma_wallet_record_round_trip(r: WalletRecord)
    requires
        one_line(r.privkey_reference@),
        forall|i: int| 0 <= i < r.mints@.len() ==> one_line(#[trigger] r.mints@[i]@),
    ensures
        split_lines(wallet_record_text(r))[0] == r.privkey_reference@,
        split_lines(wallet_record_text(r)).drop_first() == strs(r.mints@),
{
    let lines = seq![r.privkey_reference@] + strs(r.mints@);
    assert forall|i: int| 0 <= i < lines.len() implies one_line(#[trigger] lines[i]) by {
        if i > 0 {
            assert(lines[i] == r.mints@[i - 1]@);
        }
    }
    lemma_lines_round_trip(lines);
    assert(lines.drop_first() =~= strs(r.mints@));
}

/// The text of a wallet record.
pub fn encode_wallet_record(r: &WalletRecord) -> (s: String)
    ensures
        s@ == wallet_record_text(*r),
{
    let mut out = r.privkey_reference.clone();
    let mut i: usize = 0;
    let ghost first = seq![r.privkey_reference@];
    assert(join_lines(first + strs(r.mints@).take(0)) == r.privkey_reference@) by {
        assert(first + strs(r.mints@).take(0) =~= first);
    }
    while i < r.mints.len()
        invariant
            i <= r.mints.len(),
            first == seq![r.privkey_reference@],
            out@ == join_lines(first + strs(r.mints@).take(i as int)),
        decreases r.mints.len() - i,
    {
        let ghost before = out@;
        push_char(&mut out, '\n');
        out = out.concat(r.mints[i].as_str());
        proof {
            let ls = first + strs(r.mints@).take(i as int + 1);
            assert(ls.drop_last() =~= first + strs(r.mints@).take(i as int));
            assert(ls.last() == r.mints@[i as int]@);
            assert(out@ =~= join_lines(ls.drop_last()) + seq!['\n'] + ls.last());
        }
        i += 1;
    }
    assert(first + strs(r.mints@).take(i as int) =~= first + strs(r.mints@));
    out
}

/// Reads a wallet record: the first line is the key reference and each further
/// line a mint. Empty text is `InvalidInput`.
pub fn decode_wallet_record(s: &str) -> (r: Result<WalletRecord, WalletError>)
    ensures
        s@.len() == 0 <==> fails_with(r, ErrorKind::InvalidInput),
        s@.len() > 0 <==> r is Ok,
        r is Ok ==> r->Ok_0.privkey_reference@ == split_lines(s@)[0] && strs(r->Ok_0.mints@)
            == split_lines(s@).drop_first(),
{
    let c = chars_of(s);
    if c.len() == 0 {
        return Err(WalletError::new(ErrorKind::InvalidInput, "empty wallet record"));
    }
    let mut lines: Vec<String> = Vec::new();
    let mut cur: Vec<char> = Vec::new();
    let mut i: usize = 0;
    while i < c.len()
        invariant
            i <= c.len(),
            c@ == s@,
            strs(lines@).push(cur@) == split_lines(c@.take(i as int)),
        decreases c.len() - i,
    {
        let ghost t = c@.take(i as int + 1);
        assert(t.drop_last() =~= c@.take(i as int));
        if c[i] == '\n' {
            let line = string_of(&cur);
            let ghost before = strs(lines@);
            lines.push(line);
            assert(strs(lines@) =~= before.push(cur@));
            cur = Vec::new();
            assert(strs(lines@).push(cur@) =~= split_lines(t));
        } else {
            let ghost prev = split_lines(c@.take(i as int));
            cur.push(c[i]);
            assert(strs(lines@).push(cur@) =~= prev.update(prev.len() - 1, prev.last().push(c@[i as int])));
        }
        i += 1;
    }
    assert(c@.take(i as int) =~= s@);
    let last = string_of(&cur);
    let ghost before = strs(lines@);
    lines.push(last);
    assert(strs(lines@) =~= before.push(cur@));
    let mut mints: Vec<String> = Vec::new();
    let mut k: usize = 1;
    while k < lines.len()
        invariant
            1 <= k <= lines.len(),
            strs(mints@) =~= strs(lines@).subrange(1, k as int),
        decreases lines.len() - k,
    {
        let m = lines[k].clone();
        let ghost before = strs(mints@);
        mints.push(m);
        assert(strs(mints@) =~= before.push(lines@[k as int]@));
        k += 1;
    }
    assert(strs(lines@).subrange(1, k as int) =~= strs(lines@).drop_first());
    Ok(WalletRecord { privkey_reference: lines[0].clone(), mints })
}

/// Seals a wallet record to its owner: NIP-44 from the owner's key to itself.
/// Malformed keys are `InvalidInput`.
pub fn seal_wallet_record(r: &WalletRecord, public_key: &str, private_key: &str) -> (s: Result<
    String,
    WalletError,
>)
    ensures
        !(secret_key_valid(private_key@) && public_key_valid(public_key@)) <==> fails_with(
            s,
            ErrorKind::InvalidInput,
        ),
        s is Err && secret_key_valid(private_key@) && public_key_valid(public_key@) ==> fails_with(
            s,
            ErrorKind::ProtocolError,
        ),
{
    let text = encode_wallet_record(r);
    nip44_encrypt(text.as_str(), public_key, private_key)
}

/// Opens a sealed wallet record. A message that does not decrypt under the keys
/// is `DecryptionFailed`; malformed keys, or an empty record, are `InvalidInput`.
pub fn open_wallet_record(sealed: &str, public_key: &str, private_key: &str) -> (r: Result<
    WalletRecord,
    WalletError,
>)
    ensures
        !(secret_key_valid(private_key@) && public_key_valid(public_key@)) ==> fails_with(
            r,
            ErrorKind::InvalidInput,
        ),
        secret_key_valid(private_key@) && public_key_valid(public_key@) && nip44_plaintext(
            sealed@,
            public_key@,
            private_key@,
        ) is None ==> fails_with(r, ErrorKind::DecryptionFailed),
        secret_key_valid(private_key@) && public_key_valid(public_key@) && nip44_plaintext(
            sealed@,
            public_key@,
            private_key@,
        ) is Some ==> (r is Ok <==> nip44_plaintext(sealed@, public_key@, private_key@)->0.len()
            > 0),
        r is Ok ==> {
            let p = nip44_plaintext(sealed@, public_key@, private_key@)->0;
            &&& r->Ok_0.privkey_reference@ == split_lines(p)[0]
            &&& strs(r->Ok_0.mints@) == split_lines(p).drop_first()
        },
{
    let text = nip44_decrypt(sealed, public_key, private_key)?;
    decode_wallet_record(text.as_str())
}

/// Record `j` is newer than record `i`: later, or as late and later in the list.
pub open spec fn newer(rs: Seq<TokenRecord>, j: int, i: int) -> bool {
    rs[j].created_at > rs[i].created_at || (rs[j].created_at == rs[i].created_at && j > i)
}

/// Some newer record lists the id of record `i` among those it supersedes.
pub open spec fn superseded(rs: Seq<TokenRecord>, i: int) -> bool {
    exists|j: int|
        0 <= j < rs.len() && j != i && newer(rs, j, i) && #[trigger] strs(
            rs[j].deleted_token_ids@,
        ).contains(rs[i].id@)
}

/// The proofs of the records among the first `n` that belong to `url` and are not
/// superseded, record after record.
pub open spec fn live_proofs(rs: Seq<TokenRecord>, url: Seq<char>, n: int) -> Seq<ProofView>
    decreases n,
{
    if n <= 0 {
        Seq::empty()
    } else {
        live_proofs(rs, url, n - 1) + if rs[n - 1].mint_url@ == url && !superseded(rs, n - 1) {
            views(rs[n - 1].proofs@)
        } else {
            Seq::empty()
        }
    }
}

/// The proofs held at `url` according to a set of token records: the union of
/// the live records' proofs, one per secret.
pub open spec fn reconciled(rs: Seq<TokenRecord>, url: Seq<char>) -> Seq<ProofView> {
    merged(Seq::empty(), live_proofs(rs, url, rs.len() as int))
}

proof fn lemma_live_sum_monotonic(rs: Seq<TokenRecord>, url: Seq<char>, i: int, n: int)
    requires
        0 <= i <= n,
    ensures
        sum_amounts(live_proofs(rs, url, i)) <= sum_amounts(live_proofs(rs, url, n)),
    decreases n - i,
{
    if i < n {
        lemma_live_sum_monotonic(rs, url, i, n - 1);
        let extra = if rs[n - 1].mint_url@ == url && !superseded(rs, n - 1) {
            views(rs[n - 1].proofs@)
        } else {
            Seq::empty()
        };
        lemma_sum_concat(live_proofs(rs, url, n - 1), extra);
    }
}

proof fn lemma_merged_concat(s: Seq<ProofView>, a: Seq<ProofView>, b: Seq<ProofView>)
    ensures
        merged(merged(s, a), b) == merged(s, a + b),
    decreases b.len(),
{
    if b.len() == 0 {
        assert(a + b =~= a);
    } else {
        lemma_merged_concat(s, a, b.drop_last());
        assert((a + b).drop_last() =~= a + b.drop_last());
        assert((a + b).last() == b.last());
    }
}

fn string_in(list: &Vec<String>, x: &String) -> (r: bool)
    ensures
        r == strs(list@).contains(x@),
{
    let mut i: usize = 0;
    while i < list.len()
        invariant
            i <= list.len(),
            forall|k: int| 0 <= k < i ==> list@[k]@ != x@,
        decreases list.len() - i,
    {
        if list[i] == *x {
            assert(strs(list@)[i as int] == x@);
            return true;
        }
        i += 1;
    }
    false
}

fn is_superseded(rs: &Vec<TokenRecord>, i: usize) -> (r: bool)
    requires
        i < rs.len(),
    ensures
        r == superseded(rs@, i as int),
{
    let mut j: usize = 0;
    while j < rs.len()
        invariant
            i < rs.len(),
            j <= rs.len(),
            forall|k: int|
                0 <= k < j ==> !(k != i && newer(rs@, k, i as int) && #[trigger] strs(
                    rs@[k].deleted_token_ids@,
                ).contains(rs@[i as int].id@)),
        decreases rs.len() - j,
    {
        let later = rs[j].created_at > rs[i].created_at || (rs[j].created_at == rs[i].created_at
            && j > i);
        if j != i && later && string_in(&rs[j].deleted_token_ids, &rs[i].id) {
            return true;
        }
        j += 1;
    }
    false
}

/// Reconciles the token records of one mint: the union of the proofs of the
/// records that no newer record supersedes, one proof per secret, in record
/// order. Where their amounts pass `u64::MAX` the result is `InvalidInput`.
pub fn reconcile_token_records(records: &Vec<TokenRecord>, mint_url: &str) -> (r: Result<
    Vec<CashuProof>,
    WalletError,
>)
    ensures
        sum_amounts(live_proofs(records@, mint_url@, records@.len() as int)) <= u64::MAX
            ==> r is Ok,
        r is Err ==> fails_with(r, ErrorKind::InvalidInput),
        r is Ok ==> views(r->Ok_0@) == reconciled(records@, mint_url@),
{
    let url = String::from_str(mint_url);
    let mut store = ProofStore::new();
    let mut i: usize = 0;
    assert(merged(Seq::<ProofView>::empty(), live_proofs(records@, mint_url@, 0)) =~= Seq::<
        ProofView,
    >::empty());
    while i < records.len()
        invariant
            i <= records.len(),
            url@ == mint_url@,
            store.wf(),
            store@ == merged(Seq::empty(), live_proofs(records@, mint_url@, i as int)),
        decreases records.len() - i,
    {
        let ghost lp = live_proofs(records@, mint_url@, i as int);
        let live = records[i].mint_url == url && !is_superseded(records, i);
        proof {
            lemma_merged_bounds(Seq::empty(), lp);
            lemma_live_sum_monotonic(records@, mint_url@, i as int + 1, records@.len() as int);
            assert(sum_amounts(Seq::<ProofView>::empty()) == 0);
        }
        if live {
            proof {
                lemma_sum_concat(lp, views(records@[i as int].proofs@));
                lemma_merged_concat(Seq::empty(), lp, views(records@[i as int].proofs@));
            }
            match store.add_all(&records[i].proofs) {
                Ok(_) => {},
                Err(_) => {
                    return Err(WalletError::new(ErrorKind::InvalidInput, "amounts overflow"));
                },
            }
        } else {
            assert(lp + Seq::<ProofView>::empty() =~= lp);
        }
        i += 1;
    }
    Ok(store.unspent())
}

} // verus!
