//! A transaction of an account, with the balance after it.
use crate::amount::Amount;
use vstd::prelude::*;

verus! {

/// A transaction with the balance of its account after it.
#[derive(Clone, Debug)]
pub struct Transaction {
    pub amount: Amount,
    pub balance: Amount,
    pub comment: String,
    /// UNIX timestamp, in seconds.
    pub date: i64,
}

/// What a [`Transaction`] holds.
pub struct TxView {
    pub amount: Amount,
    pub balance: Amount,
    pub comment: Seq<char>,
    pub date: i64,
}

impl View for Transaction {
    type V = TxView;

    open spec fn view(&self) -> TxView {
        TxView {
            amount: self.amount,
            balance: self.balance,
            comment: self.comment@,
            date: self.date,
        }
    }
}

/// The views of a sequence of transactions.
pub open spec fn txs_view(s: Seq<Transaction>) -> Seq<TxView> {
    s.map_values(|t: Transaction| t@)
}

/// The amounts of a sequence of transactions, as terms of a sum.
pub open spec fn tx_amounts(s: Seq<TxView>) -> Seq<Option<(int, int)>> {
    s.map_values(|t: TxView| Some(t.amount@))
}

impl Transaction {
    /// A copy of the transaction.
    pub fn duplicate(&self) -> (r: Transaction)
        ensures
            r@ == self@,
    {
        Transaction {
            amount: self.amount,
            balance: self.balance,
            comment: self.comment.clone(),
            date: self.date,
        }
    }
}

/// Copies a sequence of transactions.
pub fn duplicate_txs(v: &Vec<Transaction>) -> (r: Vec<Transaction>)
    ensures
        txs_view(r@) == txs_view(v@),
{
    let mut r: Vec<Transaction> = Vec::new();
    for i in 0..v.len()
        invariant
            r.len() == i,
            txs_view(r@) == txs_view(v@).take(i as int),
    {
        let t = v[i].duplicate();
        r.push(t);
        assert(txs_view(r@) =~= txs_view(v@).take(i + 1)) by {
            assert(r@[i as int]@ == v@[i as int]@);
        }
    }
    assert(txs_view(v@).take(v.len() as int) =~= txs_view(v@));
    r
}


/// `sorted` with `x` placed after the last transaction dated no later than `x`.
pub open spec fn insert_by_date(sorted: Seq<TxView>, x: TxView) -> Seq<TxView>
    decreases sorted.len(),
{
    if sorted.len() == 0 {
        seq![x]
    } else if sorted.last().date <= x.date {
        sorted.push(x)
    } else {
        insert_by_date(sorted.drop_last(), x).push(sorted.last())
    }
}

/// The transactions of `s` ordered by date, those of equal dates in the order of `s`
/// (a stable sort by date).
pub open spec fn sort_by_date(s: Seq<TxView>) -> Seq<TxView>
    decreases s.len(),
{
    if s.len() == 0 {
        s
    } else {
        insert_by_date(sort_by_date(s.drop_last()), s.last())
    }
}

/// The dates of `s` never decrease.
pub open spec fn is_sorted_by_date(s: Seq<TxView>) -> bool {
    forall|i: int, j: int| 0 <= i <= j < s.len() ==> s[i].date <= s[j].date
}

/// The transactions of `s` dated `d`, in order.
pub open spec fn dated(s: Seq<TxView>, d: i64) -> Seq<TxView>
    decreases s.len(),
{
    if s.len() == 0 {
        s
    } else if s.last().date == d {
        dated(s.drop_last(), d).push(s.last())
    } else {
        dated(s.drop_last(), d)
    }
}

/// Placing `x` after the last transaction dated no later than it, at index `p`.
proof fn lemma_insert_at(s: Seq<TxView>, x: TxView, p: int)
    requires
        0 <= p <= s.len(),
        forall|k: int| p <= k < s.len() ==> s[k].date > x.date,
        p == 0 || s[p - 1].date <= x.date,
    ensures
        insert_by_date(s, x) == s.take(p).push(x).add(s.skip(p)),
    decreases s.len(),
{
    if s.len() == 0 {
        assert(s.take(p).push(x).add(s.skip(p)) =~= seq![x]);
    } else if p == s.len() {
        assert(s.take(p).push(x).add(s.skip(p)) =~= s.push(x));
    } else {
        lemma_insert_at(s.drop_last(), x, p);
        assert(s.drop_last().take(p).push(x).add(s.drop_last().skip(p)).push(s.last())
            =~= s.take(p).push(x).add(s.skip(p)));
    }
}

/// Inserting keeps a sequence ordered by date, and ends it with the later of its last
/// date and the inserted one.
proof fn lemma_insert_sorted(s: Seq<TxView>, x: TxView)
    requires
        is_sorted_by_date(s),
    ensures
        is_sorted_by_date(insert_by_date(s, x)),
        insert_by_date(s, x).len() == s.len() + 1,
        insert_by_date(s, x).last().date == if s.len() > 0 && s.last().date > x.date {
            s.last().date
        } else {
            x.date
        },
    decreases s.len(),
{
    if s.len() > 0 && s.last().date > x.date {
        lemma_insert_sorted(s.drop_last(), x);
        let t = insert_by_date(s.drop_last(), x);
        assert forall|i: int, j: int| 0 <= i <= j < t.push(s.last()).len() implies t.push(
            s.last(),
        )[i].date <= t.push(s.last())[j].date by {
            if j == t.len() && i < t.len() {
                assert(t[i].date <= t.last().date);
            }
        }
    }
}

/// Inserting `x` adds it to the transactions of its date and to no others.
proof fn lemma_insert_dated(s: Seq<TxView>, x: TxView, d: i64)
    ensures
        dated(insert_by_date(s, x), d) == if x.date == d {
            dated(s, d).push(x)
        } else {
            dated(s, d)
        },
    decreases s.len(),
{
    if s.len() == 0 {
        assert(seq![x].drop_last() =~= s);
    } else if s.last().date <= x.date {
        assert(s.push(x).drop_last() =~= s);
    } else {
        lemma_insert_dated(s.drop_last(), x, d);
        let t = insert_by_date(s.drop_last(), x);
        assert(t.push(s.last()).drop_last() =~= t);
    }
}

/// Sorting by date orders the transactions by date.
pub proof fn lemma_sort_is_sorted(s: Seq<TxView>)
    ensures
        is_sorted_by_date(sort_by_date(s)),
        sort_by_date(s).len() == s.len(),
    decreases s.len(),
{
    if s.len() > 0 {
        lemma_sort_is_sorted(s.drop_last());
        lemma_insert_sorted(sort_by_date(s.drop_last()), s.last());
    }
}

/// Sorting by date keeps, for every date, the transactions of that date, in their order.
pub proof fn lemma_sort_keeps_dated(s: Seq<TxView>, d: i64)
    ensures
        dated(sort_by_date(s), d) == dated(s, d),
    decreases s.len(),
{
    if s.len() > 0 {
        lemma_sort_keeps_dated(s.drop_last(), d);
        lemma_insert_dated(sort_by_date(s.drop_last()), s.last(), d);
    }
}

/// Sorting transactions that are ordered by date leaves them as they are.
pub proof fn lemma_sort_of_sorted(s: Seq<TxView>)
    requires
        is_sorted_by_date(s),
    ensures
        sort_by_date(s) == s,
    decreases s.len(),
{
    if s.len() > 0 {
        let init = s.drop_last();
        assert(is_sorted_by_date(init));
        lemma_sort_of_sorted(init);
        assert(init.push(s.last()) =~= s);
    }
}

/// Sorting by date twice gives what sorting once gives.
pub proof fn lemma_sort_twice(s: Seq<TxView>)
    ensures
        sort_by_date(sort_by_date(s)) == sort_by_date(s),
{
    lemma_sort_is_sorted(s);
    lemma_sort_of_sorted(sort_by_date(s));
}

/// Sorts transactions by date, keeping the order of those of equal dates, as
/// `sort_by_key(|tx| tx.date)` does.
pub fn sort_txs_by_date(v: &mut Vec<Transaction>)
    ensures
        txs_view(final(v)@) == sort_by_date(txs_view(old(v)@)),
{
    let mut src: Vec<Transaction> = Vec::new();
    std::mem::swap(&mut src, v);
    let ghost s = txs_view(src@);
    assert(txs_view(v@) =~= sort_by_date(s.take(0)));
    for i in 0..src.len()
        invariant
            s == txs_view(src@),
            txs_view(v@) == sort_by_date(s.take(i as int)),
    {
        let x = src[i].duplicate();
        proof {
            lemma_sort_is_sorted(s.take(i as int));
        }
        let ghost sorted = txs_view(v@);
        let mut p = v.len();
        while p > 0 && v[p - 1].date > x.date
            invariant
                p <= v.len(),
                sorted == txs_view(v@),
                is_sorted_by_date(sorted),
                forall|k: int| p <= k < v.len() ==> v@[k].date > x.date,
            decreases p,
        {
            p = p - 1;
        }
        proof {
            lemma_insert_at(sorted, x@, p as int);
            assert(s.take(i + 1).drop_last() =~= s.take(i as int));
        }
        v.insert(p, x);
        assert(txs_view(v@) =~= sorted.take(p as int).push(x@).add(sorted.skip(p as int)));
    }
    assert(s.take(src.len() as int) =~= s);
}

} // verus!
