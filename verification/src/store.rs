//! The in-memory transaction store: an append-only sequence of records with
//! first-match lookup by identifier.

use vstd::prelude::*;
use crate::transaction::{Transaction, TransactionView};

verus! {

/// The first record in `s` whose identifier is `id`, in insertion order.
pub open spec fn spec_find(s: Seq<TransactionView>, id: Seq<char>) -> Option<TransactionView>
    decreases s.len(),
{
    if s.len() == 0 {
        None
    } else if s[0].transaction_id == id {
        Some(s[0])
    } else {
        spec_find(s.drop_first(), id)
    }
}

/// The in-memory holder of all transactions for the process lifetime.
/// Its view is the sequence of stored records, oldest first.
pub struct Store {
    records: Vec<Transaction>,
}

impl View for Store {
    type V = Seq<TransactionView>;

    closed spec fn view(&self) -> Seq<TransactionView> {
        self.records@.map(|i: int, t: Transaction| t@)
    }
}

impl Store {
    /// An empty store.
    pub fn new() -> (r: Store)
        ensures
            r@ == Seq::<TransactionView>::empty(),
    {
        let s = Store { records: Vec::new() };
        assert(s@ =~= Seq::<TransactionView>::empty());
        s
    }

    /// The number of stored records.
    pub fn len(&self) -> (r: usize)
        ensures
            r == self@.len(),
    {
        self.records.len()
    }

    /// Appends `tx` at the end of the sequence; always succeeds.
    pub fn insert(&mut self, tx: Transaction)
        ensures
            final(self)@ == old(self)@.push(tx@),
    {
        self.records.push(tx);
        assert(self@ =~= old(self)@.push(self.records@.last()@));
    }

    /// The first stored record whose identifier equals `id`, as a copy;
    /// `None` if no record matches.
    pub fn find_by_id(&self, id: &str) -> (r: Option<Transaction>)
        ensures
            r matches Some(t) ==> spec_find(self@, id@) == Some(t@),
            r is None ==> spec_find(self@, id@) is None,
    {
        let id_owned: String = id.to_owned();
        assert(self@.skip(0) =~= self@);
        let mut i: usize = 0;
        while i < self.records.len()
            invariant
                i <= self.records@.len(),
                id_owned@ == id@,
                self@.len() == self.records@.len(),
                forall|j: int| 0 <= j < self@.len() ==> self@[j] == self.records@[j]@,
                spec_find(self@, id@) == spec_find(self@.skip(i as int), id@),
            decreases self.records@.len() - i,
        {
            let t = &self.records[i];
            if t.transaction_id == id_owned {
                proof {
                    assert(self@.skip(i as int)[0] == self@[i as int]);
                    assert(spec_find(self@.skip(i as int), id@) == Some(self@[i as int]));
                }
                return Some(t.duplicate());
            }
            proof {
                assert(self@.skip(i as int).drop_first() =~= self@.skip(i as int + 1));
            }
            i = i + 1;
        }
        proof {
            assert(self@.skip(i as int) =~= Seq::<TransactionView>::empty());
        }
        None
    }
}

/// Law: inserting a record whose identifier is not yet present makes a
/// lookup of that identifier return exactly that record.
pub proof fn lemma_insert_then_find(st: Seq<TransactionView>, tx: TransactionView)
    requires
        spec_find(st, tx.transaction_id) is None,
    ensures
        spec_find(st.push(tx), tx.transaction_id) == Some(tx),
    decreases st.len(),
{
    if st.len() == 0 {
        assert(st.push(tx)[0] == tx);
        assert(st.push(tx).len() == 1);
    } else {
        assert(st.push(tx)[0] == st[0]);
        assert(st.push(tx).drop_first() =~= st.drop_first().push(tx));
        lemma_insert_then_find(st.drop_first(), tx);
    }
}

/// Law: inserting a record does not change what a lookup of any other
/// identifier returns.
pub proof fn lemma_insert_preserves_other(st: Seq<TransactionView>, tx: TransactionView, id: Seq<char>)
    requires
        id != tx.transaction_id,
    ensures
        spec_find(st.push(tx), id) == spec_find(st, id),
    decreases st.len(),
{
    if st.len() == 0 {
        let s1 = st.push(tx);
        assert(s1[0] == tx);
        assert(s1[0].transaction_id != id);
        assert(spec_find(s1, id) == spec_find(s1.drop_first(), id));
        assert(s1.drop_first() =~= Seq::<TransactionView>::empty());
        assert(spec_find(s1.drop_first(), id) is None);
    } else {
        assert(st.push(tx)[0] == st[0]);
        assert(st.push(tx).drop_first() =~= st.drop_first().push(tx));
        lemma_insert_preserves_other(st.drop_first(), tx, id);
    }
}

/// Law: a lookup in a store made of two parts returns the earlier part's
/// match where there is one, and the later part's otherwise.
pub proof fn lemma_find_append(a: Seq<TransactionView>, b: Seq<TransactionView>, id: Seq<char>)
    ensures
        spec_find(a + b, id) == (if spec_find(a, id) is Some {
            spec_find(a, id)
        } else {
            spec_find(b, id)
        }),
    decreases a.len(),
{
    if a.len() == 0 {
        assert(a + b =~= b);
    } else {
        assert((a + b)[0] == a[0]);
        assert((a + b).drop_first() =~= a.drop_first() + b);
        lemma_find_append(a.drop_first(), b, id);
    }
}

/// Law: in a run of records whose identifier does not occur earlier in the
/// run, a lookup of the record at `k` returns exactly that record.
pub proof fn lemma_find_position(txs: Seq<TransactionView>, k: int)
    requires
        0 <= k < txs.len(),
        forall|m: int| 0 <= m < k ==> txs[m].transaction_id != txs[k].transaction_id,
    ensures
        spec_find(txs, txs[k].transaction_id) == Some(txs[k]),
    decreases txs.len(),
{
    if k == 0 {
    } else {
        assert(txs[0].transaction_id != txs[k].transaction_id);
        assert(forall|m: int| 0 <= m < k - 1 ==> txs.drop_first()[m] == txs[m + 1]);
        assert(txs.drop_first()[k - 1] == txs[k]);
        lemma_find_position(txs.drop_first(), k - 1);
    }
}

/// Law: when several records with pairwise distinct identifiers, none of
/// them stored yet, are all appended, a later lookup of each identifier
/// returns that identifier's record: none is lost and none is shadowed.
pub proof fn lemma_distinct_inserts_all_found(
    st: Seq<TransactionView>,
    txs: Seq<TransactionView>,
    k: int,
)
    requires
        0 <= k < txs.len(),
        forall|m: int| 0 <= m < txs.len() ==> spec_find(st, txs[m].transaction_id) is None,
        forall|m: int, n: int|
            0 <= m < n < txs.len() ==> txs[m].transaction_id != txs[n].transaction_id,
    ensures
        spec_find(st + txs, txs[k].transaction_id) == Some(txs[k]),
{
    lemma_find_append(st, txs, txs[k].transaction_id);
    lemma_find_position(txs, k);
}

/// Law: once an identifier has a first match, later inserts never change
/// what a lookup of that identifier returns, whatever record they carry.
pub proof fn lemma_first_match_kept(st: Seq<TransactionView>, tx: TransactionView, id: Seq<char>)
    requires
        spec_find(st, id) is Some,
    ensures
        spec_find(st.push(tx), id) == spec_find(st, id),
    decreases st.len(),
{
    if st.len() == 0 {
    } else {
        assert(st.push(tx)[0] == st[0]);
        if st[0].transaction_id == id {
        } else {
            assert(st.push(tx).drop_first() =~= st.drop_first().push(tx));
            lemma_first_match_kept(st.drop_first(), tx, id);
        }
    }
}

} // verus!
