//! An account of the application: its transactions and the ones that repeat monthly.
pub mod transaction;

use crate::amount::{add_opt, is_decimal, lemma_sum_none_stays, opt_view, sum_of, Amount};
use crate::app::money::Currency;
use crate::datetime::{calendar_month, year_and_month};
use transaction::{duplicate_txs, tx_amounts, txs_view, Transaction, TxView};
use vstd::prelude::*;

verus! {

/// An account: a name, a currency, its transactions, and the transactions that come
/// back every month.
#[derive(Clone, Debug)]
pub struct Account {
    pub name: String,
    pub currency: Currency,
    pub txs_1st: Vec<Transaction>,
    pub txs_monthly: Vec<Transaction>,
}

/// What an [`Account`] holds.
pub struct AccountView {
    pub name: Seq<char>,
    pub currency: Currency,
    pub txs_1st: Seq<TxView>,
    pub txs_monthly: Seq<TxView>,
}

impl View for Account {
    type V = AccountView;

    open spec fn view(&self) -> AccountView {
        AccountView {
            name: self.name@,
            currency: self.currency,
            txs_1st: txs_view(self.txs_1st@),
            txs_monthly: txs_view(self.txs_monthly@),
        }
    }
}

/// A span of calendar time, seen from an instant.
#[derive(Clone, Copy, Debug, PartialEq, Eq, Structural)]
pub enum Period {
    CurrentMonth,
    LastMonth,
    CurrentYear,
    LastYear,
}

/// The calendar month before (year, month).
pub open spec fn previous_month(ym: (int, int)) -> (int, int) {
    if ym.1 == 1 {
        (ym.0 - 1, 12)
    } else {
        (ym.0, ym.1 - 1)
    }
}

/// Whether the instant `date` lies in the period `p` seen from the instant `now`, both
/// read in UTC; an instant `chrono` cannot read lies in no period.
pub open spec fn in_period(date: int, now: int, p: Period) -> bool {
    match (calendar_month(now), calendar_month(date)) {
        (Some(n), Some(d)) => match p {
            Period::CurrentMonth => d == n,
            Period::LastMonth => d == previous_month(n),
            Period::CurrentYear => d.0 == n.0,
            Period::LastYear => d.0 == n.0 - 1,
        },
        _ => false,
    }
}

/// The amounts of the transactions of `s` dated in the period, as terms of a sum.
pub open spec fn period_terms(s: Seq<TxView>, now: int, p: Period) -> Seq<Option<(int, int)>>
    decreases s.len(),
{
    if s.len() == 0 {
        Seq::<Option<(int, int)>>::empty()
    } else if in_period(s.last().date as int, now, p) {
        period_terms(s.drop_last(), now, p).push(Some(s.last().amount@))
    } else {
        period_terms(s.drop_last(), now, p)
    }
}

/// The balance of an account: the sum of its transactions' amounts.
pub open spec fn account_balance(a: AccountView) -> Option<(int, int)> {
    sum_of(tx_amounts(a.txs_1st))
}

/// The sum of an account's monthly transactions' amounts.
pub open spec fn account_monthly(a: AccountView) -> Option<(int, int)> {
    sum_of(tx_amounts(a.txs_monthly))
}

/// The sum of the amounts of an account's transactions dated in a period.
pub open spec fn account_period_sum(a: AccountView, now: int, p: Period) -> Option<(int, int)> {
    sum_of(period_terms(a.txs_1st, now, p))
}

/// Sums the amounts of a sequence of transactions; `None` where an addition overflows.
fn checked_sum_txs(v: &Vec<Transaction>) -> (r: Option<Amount>)
    ensures
        opt_view(r) == sum_of(tx_amounts(txs_view(v@))),
        r matches Some(x) ==> is_decimal(x@),
{
    let ghost terms = tx_amounts(txs_view(v@));
    let mut total = Amount::zero();
    for i in 0..v.len()
        invariant
            terms == tx_amounts(txs_view(v@)),
            Some(total@) == sum_of(terms.take(i as int)),
            is_decimal(total@),
    {
        assert(terms.take(i + 1).drop_last() =~= terms.take(i as int));
        match total.checked_add(&v[i].amount) {
            Some(t) => total = t,
            None => {
                proof {
                    lemma_sum_none_stays((0, 0), terms, i + 1, terms.len() as int);
                    assert(terms.take(terms.len() as int) =~= terms);
                }
                return None;
            },
        }
    }
    assert(terms.take(v.len() as int) =~= terms);
    Some(total)
}

/// Once the period sum of a prefix overflows, the period sum of a longer prefix does too.
proof fn lemma_period_none_stays(s: Seq<TxView>, now: int, p: Period, i: int, j: int)
    requires
        0 <= i <= j <= s.len(),
        sum_of(period_terms(s.take(i), now, p)) is None,
    ensures
        sum_of(period_terms(s.take(j), now, p)) is None,
    decreases j - i,
{
    if i < j {
        lemma_period_none_stays(s, now, p, i, j - 1);
        assert(s.take(j).drop_last() =~= s.take(j - 1));
        let t = period_terms(s.take(j - 1), now, p);
        if in_period(s[j - 1].date as int, now, p) {
            assert(t.push(Some(s[j - 1].amount@)).drop_last() =~= t);
        }
    }
}

impl Account {
    /// A new account without transactions.
    pub fn new(name: String, currency: Currency) -> (r: Account)
        ensures
            r@.name == name@,
            r@.currency == currency,
            r@.txs_1st == Seq::<TxView>::empty(),
            r@.txs_monthly == Seq::<TxView>::empty(),
    {
        let r = Account { name, currency, txs_1st: Vec::new(), txs_monthly: Vec::new() };
        assert(r@.txs_1st =~= Seq::<TxView>::empty());
        assert(r@.txs_monthly =~= Seq::<TxView>::empty());
        r
    }

    /// A copy of the account.
    pub fn duplicate(&self) -> (r: Account)
        ensures
            r@ == self@,
    {
        Account {
            name: self.name.clone(),
            currency: self.currency,
            txs_1st: duplicate_txs(&self.txs_1st),
            txs_monthly: duplicate_txs(&self.txs_monthly),
        }
    }

    /// The balance of the account, or `None` where it overflows.
    pub fn checked_balance(&self) -> (r: Option<Amount>)
        ensures
            opt_view(r) == account_balance(self@),
            r matches Some(x) ==> is_decimal(x@),
    {
        checked_sum_txs(&self.txs_1st)
    }

    /// The balance of the account: the sum of its transactions' amounts.
    pub fn balance(&self) -> (r: Amount)
        requires
            account_balance(self@) is Some,
        ensures
            Some(r@) == account_balance(self@),
            is_decimal(r@),
    {
        self.checked_balance().unwrap()
    }

    /// The sum of the monthly transactions' amounts, or `None` where it overflows.
    pub fn checked_sum_monthly(&self) -> (r: Option<Amount>)
        ensures
            opt_view(r) == account_monthly(self@),
            r matches Some(x) ==> is_decimal(x@),
    {
        checked_sum_txs(&self.txs_monthly)
    }

    /// The sum of the monthly transactions' amounts.
    pub fn sum_monthly(&self) -> (r: Amount)
        requires
            account_monthly(self@) is Some,
        ensures
            Some(r@) == account_monthly(self@),
    {
        self.checked_sum_monthly().unwrap()
    }

    /// The sum of the amounts of the transactions dated in the period seen from `now`, or
    /// `None` where it overflows.
    pub fn checked_sum_in_period(&self, now: i64, period: Period) -> (r: Option<Amount>)
        ensures
            opt_view(r) == account_period_sum(self@, now as int, period),
            r matches Some(x) ==> is_decimal(x@),
    {
        let ghost s = self@.txs_1st;
        let current = year_and_month(now);
        let mut total = Amount::zero();
        for i in 0..self.txs_1st.len()
            invariant
                s == self@.txs_1st,
                Some(total@) == sum_of(period_terms(s.take(i as int), now as int, period)),
                is_decimal(total@),
                match current {
                    Some((y, m)) => calendar_month(now as int) == Some((y as int, m as int)) && 1
                        <= m <= 12,
                    None => calendar_month(now as int) is None,
                },
        {
            assert(s.take(i + 1).drop_last() =~= s.take(i as int));
            let t = &self.txs_1st[i];
            let inside = match (current, year_and_month(t.date)) {
                (Some((ny, nm)), Some((y, m))) => match period {
                    Period::CurrentMonth => y == ny && m == nm,
                    Period::LastMonth => if nm == 1 {
                        y as i64 == ny as i64 - 1 && m == 12
                    } else {
                        y == ny && m == nm - 1
                    },
                    Period::CurrentYear => y == ny,
                    Period::LastYear => y as i64 == ny as i64 - 1,
                },
                _ => false,
            };
            assert(s.take(i + 1).last() == s[i as int]);
            assert(inside == in_period(s[i as int].date as int, now as int, period));
            let ghost before = period_terms(s.take(i as int), now as int, period);
            assert(before.push(Some(t.amount@)).drop_last() =~= before);
            if inside {
                match total.checked_add(&t.amount) {
                    Some(x) => total = x,
                    None => {
                        proof {
                            lemma_period_none_stays(s, now as int, period, i + 1, s.len() as int);
                            assert(s.take(s.len() as int) =~= s);
                        }
                        return None;
                    },
                }
            }
        }
        assert(s.take(self.txs_1st.len() as int) =~= s);
        Some(total)
    }

    /// The sum of the amounts of the transactions dated in the calendar month of `now`.
    pub fn sum_current_month(&self, now: i64) -> (r: Option<Amount>)
        ensures
            opt_view(r) == account_period_sum(self@, now as int, Period::CurrentMonth),
    {
        self.checked_sum_in_period(now, Period::CurrentMonth)
    }

    /// The sum of the amounts of the transactions dated in the calendar month before that
    /// of `now`.
    pub fn sum_last_month(&self, now: i64) -> (r: Option<Amount>)
        ensures
            opt_view(r) == account_period_sum(self@, now as int, Period::LastMonth),
    {
        self.checked_sum_in_period(now, Period::LastMonth)
    }

    /// The sum of the amounts of the transactions dated in the calendar year of `now`.
    pub fn sum_current_year(&self, now: i64) -> (r: Option<Amount>)
        ensures
            opt_view(r) == account_period_sum(self@, now as int, Period::CurrentYear),
    {
        self.checked_sum_in_period(now, Period::CurrentYear)
    }

    /// The sum of the amounts of the transactions dated in the calendar year before that
    /// of `now`.
    pub fn sum_last_year(&self, now: i64) -> (r: Option<Amount>)
        ensures
            opt_view(r) == account_period_sum(self@, now as int, Period::LastYear),
    {
        self.checked_sum_in_period(now, Period::LastYear)
    }
}

/// An account without transactions has a balance of zero, and one without monthly
/// transactions a monthly sum of zero.
pub proof fn lemma_account_sums_empty(a: AccountView)
    ensures
        a.txs_1st.len() == 0 ==> account_balance(a) == Some((0int, 0int)),
        a.txs_monthly.len() == 0 ==> account_monthly(a) == Some((0int, 0int)),
{
}

/// Recording one more transaction adds its amount to the account's balance.
pub proof fn lemma_balance_push(a: AccountView, t: TxView)
    ensures
        account_balance(
            AccountView {
                name: a.name,
                currency: a.currency,
                txs_1st: a.txs_1st.push(t),
                txs_monthly: a.txs_monthly,
            },
        ) == add_opt(account_balance(a), Some(t.amount@)),
{
    assert(tx_amounts(a.txs_1st.push(t)).drop_last() =~= tx_amounts(a.txs_1st));
}

/// One more monthly transaction adds its amount to the account's monthly sum: every
/// monthly transaction counts in it.
pub proof fn lemma_monthly_sum_push(a: AccountView, t: TxView)
    ensures
        account_monthly(
            AccountView {
                name: a.name,
                currency: a.currency,
                txs_1st: a.txs_1st,
                txs_monthly: a.txs_monthly.push(t),
            },
        ) == add_opt(account_monthly(a), Some(t.amount@)),
{
    assert(tx_amounts(a.txs_monthly.push(t)).drop_last() =~= tx_amounts(a.txs_monthly));
}

/// How the periods seen from `now` relate: an instant lies in the current month exactly
/// when it has the calendar (year, month) of `now`, so never when its year differs; the
/// current month lies in the current year; last month lies in the last year when `now`
/// is in January and in the current year otherwise; no instant lies in both this and last month, or in both this and last year.
pub proof fn lemma_periods(date: int, now: int)
    ensures
        in_period(date, now, Period::CurrentMonth) <==> (calendar_month(now) is Some
            && calendar_month(date) == calendar_month(now)),
        calendar_month(now) matches Some(n) && calendar_month(date) matches Some(d) && d.0
            != n.0 ==> !in_period(date, now, Period::CurrentMonth),
        in_period(date, now, Period::CurrentMonth) ==> in_period(date, now, Period::CurrentYear),
        in_period(date, now, Period::LastMonth) ==> in_period(date, now, Period::CurrentYear)
            || in_period(date, now, Period::LastYear),
        in_period(date, now, Period::LastMonth) && calendar_month(now).unwrap().1 == 1
            ==> in_period(date, now, Period::LastYear),
        in_period(date, now, Period::LastMonth) && calendar_month(now).unwrap().1 != 1
            ==> in_period(date, now, Period::CurrentYear),
        !(in_period(date, now, Period::CurrentMonth) && in_period(date, now, Period::LastMonth)),
        !(in_period(date, now, Period::CurrentYear) && in_period(date, now, Period::LastYear)),
{
}

/// One more transaction adds its amount to a period's sum exactly when it is dated in
/// the period, and leaves the sum as it was otherwise.
pub proof fn lemma_period_sum_push(a: AccountView, t: TxView, now: int, p: Period)
    ensures
        account_period_sum(
            AccountView {
                name: a.name,
                currency: a.currency,
                txs_1st: a.txs_1st.push(t),
                txs_monthly: a.txs_monthly,
            },
            now,
            p,
        ) == if in_period(t.date as int, now, p) {
            add_opt(account_period_sum(a, now, p), Some(t.amount@))
        } else {
            account_period_sum(a, now, p)
        },
{
    let s = a.txs_1st.push(t);
    assert(s.drop_last() =~= a.txs_1st);
    assert(s.last() == t);
    let pt = period_terms(a.txs_1st, now, p);
    assert(pt.push(Some(t.amount@)).drop_last() =~= pt);
}

} // verus!
