//! One account's ledger: its transactions and the transaction being entered.
use crate::amount::{add_opt, is_decimal, lemma_sum_none_stays, opt_view, sum_of, Amount};
use crate::datetime::{utc_now, valid_timestamp};
use vstd::prelude::*;

verus! {

/// A transaction of a ledger.
#[derive(Clone, Debug)]
pub struct Transaction {
    pub amount: Amount,
    pub comment: String,
    /// UNIX timestamp, in seconds.
    pub date: i64,
    /// Whether the transaction comes back every month.
    pub repeats_monthly: bool,
}

/// What a [`Transaction`] holds.
pub struct TxView {
    pub amount: Amount,
    pub comment: Seq<char>,
    pub date: i64,
    pub repeats_monthly: bool,
}

impl View for Transaction {
    type V = TxView;

    open spec fn view(&self) -> TxView {
        TxView {
            amount: self.amount,
            comment: self.comment@,
            date: self.date,
            repeats_monthly: self.repeats_monthly,
        }
    }
}

/// The views of a sequence of transactions.
pub open spec fn txs_view(s: Seq<Transaction>) -> Seq<TxView> {
    s.map_values(|t: Transaction| t@)
}

/// The amounts of a sequence of transactions, as terms of a sum.
pub open spec fn tx_amounts(s: Seq<TxView>) -> Seq<Option<(int, int)>> {
    s.map_values(|t: TxView| Some(t.amount@))
}

/// A fresh transaction: zero, no comment, not repeating, dated at an instant `chrono` can
/// hold.
pub open spec fn is_fresh_tx(t: TxView) -> bool {
    &&& t.amount@ == (0int, 0int)
    &&& t.comment == Seq::<char>::empty()
    &&& !t.repeats_monthly
    &&& valid_timestamp(t.date as int)
}

impl Transaction {
    /// A zero transaction dated now.
    pub fn new() -> (r: Transaction)
        ensures
            is_fresh_tx(r@),
    {
        Transaction {
            amount: Amount::zero(),
            comment: String::new(),
            date: utc_now().0,
            repeats_monthly: false,
        }
    }

    /// A copy of the transaction.
    pub fn duplicate(&self) -> (r: Transaction)
        ensures
            r@ == self@,
    {
        Transaction {
            amount: self.amount,
            comment: self.comment.clone(),
            date: self.date,
            repeats_monthly: self.repeats_monthly,
        }
    }
}

/// The transactions of an account, with the one being entered.
#[derive(Clone, Debug)]
pub struct Ledger {
    pub data: Vec<Transaction>,
    /// The transaction being entered.
    pub tx: Transaction,
    /// The text of the amount being entered.
    pub amount: String,
}

/// What a [`Ledger`] holds.
pub struct LedgerView {
    pub data: Seq<TxView>,
    pub tx: TxView,
    pub amount: Seq<char>,
}

impl View for Ledger {
    type V = LedgerView;

    open spec fn view(&self) -> LedgerView {
        LedgerView { data: txs_view(self.data@), tx: self.tx@, amount: self.amount@ }
    }
}

/// The sum of the amounts of a ledger's transactions; `None` where it overflows.
pub open spec fn ledger_sum(l: LedgerView) -> Option<(int, int)> {
    sum_of(tx_amounts(l.data))
}

/// Copies a sequence of transactions.
pub fn duplicate_txs(v: &Vec<Transaction>) -> (r: Vec<Transaction>)
    ensures
        txs_view(r@) == txs_view(v@),
{
    let mut r: Vec<Transaction> = Vec::new();
    for i in 0..v.len()
        invariant
            r.len() == i,
            txs_view(r@) == txs_view(v@).take(i as int),
    {
        let t = v[i].duplicate();
        r.push(t);
        assert(txs_view(r@) =~= txs_view(v@).take(i + 1)) by {
            assert(r@[i as int]@ == v@[i as int]@);
        }
    }
    assert(txs_view(v@).take(v.len() as int) =~= txs_view(v@));
    r
}

/// Sums the amounts of a sequence of transactions; `None` where an addition overflows.
pub fn checked_sum_txs(v: &Vec<Transaction>) -> (r: Option<Amount>)
    ensures
        opt_view(r) == sum_of(tx_amounts(txs_view(v@))),
        r matches Some(x) ==> is_decimal(x@),
{
    let ghost terms = tx_amounts(txs_view(v@));
    let mut total = Amount::zero();
    for i in 0..v.len()
        invariant
            terms == tx_amounts(txs_view(v@)),
            Some(total@) == sum_of(terms.take(i as int)),
            is_decimal(total@),
    {
        assert(terms.take(i + 1).drop_last() =~= terms.take(i as int));
        match total.checked_add(&v[i].amount) {
            Some(t) => total = t,
            None => {
                proof {
                    lemma_sum_none_stays((0, 0), terms, i + 1, terms.len() as int);
                    assert(terms.take(terms.len() as int) =~= terms);
                }
                return None;
            },
        }
    }
    assert(terms.take(v.len() as int) =~= terms);
    Some(total)
}

impl Ledger {
    /// An empty ledger with a fresh transaction being entered.
    pub fn new() -> (r: Ledger)
        ensures
            r@.data == Seq::<TxView>::empty(),
            is_fresh_tx(r@.tx),
            r@.amount == Seq::<char>::empty(),
    {
        let r = Ledger { data: Vec::new(), tx: Transaction::new(), amount: String::new() };
        assert(r@.data =~= Seq::<TxView>::empty());
        r
    }

    /// A copy of the ledger.
    pub fn duplicate(&self) -> (r: Ledger)
        ensures
            r@ == self@,
    {
        Ledger { data: duplicate_txs(&self.data), tx: self.tx.duplicate(), amount: self.amount.clone() }
    }

    /// The sum of the amounts of the ledger's transactions, or `None` where it overflows.
    pub fn checked_sum(&self) -> (r: Option<Amount>)
        ensures
            opt_view(r) == ledger_sum(self@),
            r matches Some(x) ==> is_decimal(x@),
    {
        checked_sum_txs(&self.data)
    }

    /// The sum of the amounts of the ledger's transactions.
    pub fn sum(&self) -> (r: Amount)
        requires
            ledger_sum(self@) is Some,
        ensures
            Some(r@) == ledger_sum(self@),
            is_decimal(r@),
    {
        self.checked_sum().unwrap()
    }
}

/// A ledger without transactions sums to zero.
pub proof fn lemma_ledger_sum_empty(l: LedgerView)
    requires
        l.data.len() == 0,
    ensures
        ledger_sum(l) == Some((0int, 0int)),
{
}

/// Recording one more transaction adds its amount to the ledger's sum, whatever the
/// transaction's comment, date or repeating flag.
pub proof fn lemma_ledger_sum_push(l: LedgerView, t: TxView)
    ensures
        ledger_sum(LedgerView { data: l.data.push(t), tx: l.tx, amount: l.amount }) == add_opt(
            ledger_sum(l),
            Some(t.amount@),
        ),
{
    assert(tx_amounts(l.data.push(t)).drop_last() =~= tx_amounts(l.data));
}

/// Whether a transaction repeats monthly does not change the ledger's sum: marking or
/// unmarking one of them leaves the sum as it was.
pub proof fn lemma_ledger_sum_ignores_repeating(l: LedgerView, i: int, repeats: bool)
    requires
        0 <= i < l.data.len(),
    ensures
        ledger_sum(
            LedgerView {
                data: l.data.update(
                    i,
                    TxView {
                        amount: l.data[i].amount,
                        comment: l.data[i].comment,
                        date: l.data[i].date,
                        repeats_monthly: repeats,
                    },
                ),
                tx: l.tx,
                amount: l.amount,
            },
        ) == ledger_sum(l),
{
    let d = l.data.update(
        i,
        TxView {
            amount: l.data[i].amount,
            comment: l.data[i].comment,
            date: l.data[i].date,
            repeats_monthly: repeats,
        },
    );
    assert(tx_amounts(d) =~= tx_amounts(l.data));
}

} // verus!
