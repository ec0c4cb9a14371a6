//! A transaction, and the texts of one being entered.
use crate::amount::Amount;
use crate::datetime::{utc_now, valid_timestamp};
use vstd::prelude::*;

verus! {

/// A transaction: an amount, a comment and a date.
#[derive(Clone, Debug)]
pub struct Transaction {
    pub amount: Amount,
    pub comment: String,
    /// UNIX timestamp, in seconds.
    pub date: i64,
}

impl Transaction {
    /// A zero transaction without a comment, dated now.
    pub fn new() -> (r: Transaction)
        ensures
            r.amount@ == (0int, 0int),
            r.comment@ == Seq::<char>::empty(),
            valid_timestamp(r.date as int),
    {
        Transaction { amount: Amount::zero(), comment: String::new(), date: utc_now().0 }
    }
}

impl Default for Transaction {
    /// The same as [`Transaction::new`].
    fn default() -> (r: Transaction)
        ensures
            r.amount@ == (0int, 0int),
            r.comment@ == Seq::<char>::empty(),
            valid_timestamp(r.date as int),
    {
        Self::new()
    }
}

/// The texts of a transaction being entered.
#[derive(Clone, Debug)]
pub struct TransactionToSubmit {
    pub amount: String,
    pub comment: String,
    pub date: String,
}

impl TransactionToSubmit {
    /// Empty texts.
    pub fn new() -> (r: TransactionToSubmit)
        ensures
            r.amount@ == Seq::<char>::empty(),
            r.comment@ == Seq::<char>::empty(),
            r.date@ == Seq::<char>::empty(),
    {
        TransactionToSubmit { amount: String::new(), comment: String::new(), date: String::new() }
    }
}

impl Default for TransactionToSubmit {
    /// The same as [`TransactionToSubmit::new`].
    fn default() -> (r: TransactionToSubmit)
        ensures
            r.amount@ == Seq::<char>::empty(),
            r.comment@ == Seq::<char>::empty(),
            r.date@ == Seq::<char>::empty(),
    {
        Self::new()
    }
}

} // verus!
