//! All accounts of the application: balances, projections and monthly bookkeeping.
use crate::amount::{
    add_opt, amount_of, is_decimal, lemma_sum_concat, lemma_sum_none_stays, mul_opt, opt_view, sum_from, sum_of,
    Amount,
};
use crate::app::account::transaction::{
    dated, is_sorted_by_date, lemma_sort_is_sorted, lemma_sort_keeps_dated, sort_by_date,
    sort_txs_by_date, tx_amounts, txs_view, Transaction, TxView,
};
use crate::app::account::{
    account_balance, account_monthly, account_period_sum, Account, AccountView, Period,
};
use crate::app::money::Currency;
use crate::datetime::{first_of_month, month_start, seconds_up, utc_now, valid_timestamp};
use vstd::prelude::*;

verus! {

/// All accounts, the totals held in crypto currencies and metals, and the instant up to
/// which monthly transactions were booked.
#[derive(Clone, Debug)]
pub struct Accounts {
    /// UNIX timestamp, in seconds.
    pub checked_up_to: i64,
    pub total_crypto: Amount,
    pub total_metals: Amount,
    pub inner: Vec<Account>,
}

/// What [`Accounts`] hold.
pub struct AccountsView {
    pub checked_up_to: i64,
    pub total_crypto: Amount,
    pub total_metals: Amount,
    pub inner: Seq<AccountView>,
}

/// The views of a sequence of accounts.
pub open spec fn accounts_view(s: Seq<Account>) -> Seq<AccountView> {
    s.map_values(|a: Account| a@)
}

impl View for Accounts {
    type V = AccountsView;

    open spec fn view(&self) -> AccountsView {
        AccountsView {
            checked_up_to: self.checked_up_to,
            total_crypto: self.total_crypto,
            total_metals: self.total_metals,
            inner: accounts_view(self.inner@),
        }
    }
}

/// The balance of every account, as terms of a sum.
pub open spec fn balance_terms(s: Seq<AccountView>) -> Seq<Option<(int, int)>> {
    s.map_values(|a: AccountView| account_balance(a))
}

/// The sum of all accounts' balances.
pub open spec fn total_balance(v: AccountsView) -> Option<(int, int)> {
    sum_of(balance_terms(v.inner))
}

/// Each account's monthly sum times `months`, as terms of a sum.
pub open spec fn months_terms(s: Seq<AccountView>, months: int) -> Seq<Option<(int, int)>> {
    s.map_values(|a: AccountView| mul_opt(account_monthly(a), Some((months, 0int))))
}

/// What the monthly transactions of all accounts add up to over `months` months.
pub open spec fn total_for_months(v: AccountsView, months: int) -> Option<(int, int)> {
    sum_of(months_terms(v.inner, months))
}

/// The balance projected `months` months on: the balance plus what the monthly
/// transactions add in that time, or the balance alone without a number of months.
pub open spec fn projected_balance(v: AccountsView, months: Option<u16>) -> Option<(int, int)> {
    match months {
        Some(m) => add_opt(total_balance(v), total_for_months(v, m as int)),
        None => total_balance(v),
    }
}

/// Each account's sum over a period, as terms of a sum.
pub open spec fn period_terms_of(s: Seq<AccountView>, now: int, p: Period) -> Seq<Option<(int, int)>> {
    s.map_values(|a: AccountView| account_period_sum(a, now, p))
}

/// The sum over all accounts of the transactions dated in a period seen from `now`.
pub open spec fn period_total(v: AccountsView, now: int, p: Period) -> Option<(int, int)> {
    sum_of(period_terms_of(v.inner, now, p))
}

impl Accounts {
    /// No accounts, checked up to the UNIX epoch, with zero totals.
    pub fn new() -> (r: Accounts)
        ensures
            r@.checked_up_to == 0,
            r@.total_crypto@ == (0int, 0int),
            r@.total_metals@ == (0int, 0int),
            r@.inner == Seq::<AccountView>::empty(),
    {
        let r = Accounts {
            checked_up_to: 0,
            total_crypto: Amount::zero(),
            total_metals: Amount::zero(),
            inner: Vec::new(),
        };
        assert(r@.inner =~= Seq::<AccountView>::empty());
        r
    }

    /// The account at index `i`.
    pub fn index(&self, i: usize) -> (r: &Account)
        requires
            i < self.inner.len(),
        ensures
            *r == self.inner@[i as int],
    {
        &self.inner[i]
    }

    /// The account at index `i`, to change it.
    pub fn index_mut(&mut self, i: usize) -> (r: &mut Account)
        requires
            i < old(self).inner.len(),
        ensures
            *r == old(self).inner@[i as int],
            final(self).inner@ == old(self).inner@.update(i as int, *final(r)),
            final(self).checked_up_to == old(self).checked_up_to,
            final(self).total_crypto == old(self).total_crypto,
            final(self).total_metals == old(self).total_metals,
    {
        &mut self.inner[i]
    }

    /// The sum of all accounts' balances, or `None` where it overflows.
    pub fn checked_balance(&self) -> (r: Option<Amount>)
        ensures
            opt_view(r) == total_balance(self@),
            r matches Some(x) ==> is_decimal(x@),
    {
        let ghost terms = balance_terms(self@.inner);
        let mut total = Amount::zero();
        for i in 0..self.inner.len()
            invariant
                terms == balance_terms(self@.inner),
                Some(total@) == sum_of(terms.take(i as int)),
                is_decimal(total@),
        {
            assert(terms.take(i + 1).drop_last() =~= terms.take(i as int));
            let next = match self.inner[i].checked_balance() {
                Some(b) => total.checked_add(&b),
                None => None,
            };
            match next {
                Some(t) => total = t,
                None => {
                    proof {
                        lemma_sum_none_stays((0, 0), terms, i + 1, terms.len() as int);
                        assert(terms.take(terms.len() as int) =~= terms);
                    }
                    return None;
                },
            }
        }
        assert(terms.take(self.inner.len() as int) =~= terms);
        Some(total)
    }

    /// The sum of all accounts' balances.
    pub fn balance(&self) -> (r: Amount)
        requires
            total_balance(self@) is Some,
        ensures
            Some(r@) == total_balance(self@),
    {
        self.checked_balance().unwrap()
    }

    /// What the monthly transactions of all accounts add up to over `project_months`
    /// months, or `None` where it overflows.
    pub fn checked_total_for_months_usd(&self, project_months: u16) -> (r: Option<Amount>)
        ensures
            opt_view(r) == total_for_months(self@, project_months as int),
            r matches Some(x) ==> is_decimal(x@),
    {
        let ghost terms = months_terms(self@.inner, project_months as int);
        let times = Amount::from_u16(project_months);
        let mut total = Amount::zero();
        for i in 0..self.inner.len()
            invariant
                terms == months_terms(self@.inner, project_months as int),
                times@ == (project_months as int, 0int),
                Some(total@) == sum_of(terms.take(i as int)),
                is_decimal(total@),
        {
            assert(terms.take(i + 1).drop_last() =~= terms.take(i as int));
            let next = match self.inner[i].checked_sum_monthly() {
                Some(sum) => match sum.checked_mul(&times) {
                    Some(p) => total.checked_add(&p),
                    None => None,
                },
                None => None,
            };
            match next {
                Some(t) => total = t,
                None => {
                    proof {
                        lemma_sum_none_stays((0, 0), terms, i + 1, terms.len() as int);
                        assert(terms.take(terms.len() as int) =~= terms);
                    }
                    return None;
                },
            }
        }
        assert(terms.take(self.inner.len() as int) =~= terms);
        Some(total)
    }

    /// What the monthly transactions of all accounts add up to over `project_months` months.
    pub fn total_for_months_usd(&self, project_months: u16) -> (r: Amount)
        requires
            total_for_months(self@, project_months as int) is Some,
        ensures
            Some(r@) == total_for_months(self@, project_months as int),
    {
        self.checked_total_for_months_usd(project_months).unwrap()
    }

    /// The balance projected `months` months on, or `None` where it overflows.
    pub fn checked_project_months(&self, months: Option<u16>) -> (r: Option<Amount>)
        ensures
            opt_view(r) == projected_balance(self@, months),
    {
        match months {
            Some(m) => match (self.checked_balance(), self.checked_total_for_months_usd(m)) {
                (Some(b), Some(t)) => b.checked_add(&t),
                _ => None,
            },
            None => self.checked_balance(),
        }
    }

    /// The balance projected `months` months on: the balance plus what the monthly
    /// transactions add in that time, or the balance alone without a number of months.
    pub fn project_months(&self, months: Option<u16>) -> (r: Amount)
        requires
            projected_balance(self@, months) is Some,
        ensures
            Some(r@) == projected_balance(self@, months),
    {
        self.checked_project_months(months).unwrap()
    }

    /// The sum over all accounts of the transactions dated in a period seen from `now`, or
    /// `None` where it overflows.
    pub fn checked_total_in_period(&self, now: i64, period: Period) -> (r: Option<Amount>)
        ensures
            opt_view(r) == period_total(self@, now as int, period),
    {
        let ghost terms = period_terms_of(self@.inner, now as int, period);
        let mut total = Amount::zero();
        for i in 0..self.inner.len()
            invariant
                terms == period_terms_of(self@.inner, now as int, period),
                Some(total@) == sum_of(terms.take(i as int)),
                is_decimal(total@),
        {
            assert(terms.take(i + 1).drop_last() =~= terms.take(i as int));
            let next = match self.inner[i].checked_sum_in_period(now, period) {
                Some(s) => total.checked_add(&s),
                None => None,
            };
            match next {
                Some(t) => total = t,
                None => {
                    proof {
                        lemma_sum_none_stays((0, 0), terms, i + 1, terms.len() as int);
                        assert(terms.take(terms.len() as int) =~= terms);
                    }
                    return None;
                },
            }
        }
        assert(terms.take(self.inner.len() as int) =~= terms);
        Some(total)
    }

    /// The sum over all accounts of the transactions dated in a period seen from the
    /// clock's current instant, or `None` where it overflows.
    fn total_in_period_now(&self, period: Period) -> (r: Option<Amount>)
        ensures
            exists|now: i64|
                valid_timestamp(now as int) && opt_view(r) == period_total(self@, now as int, period),
    {
        let now = utc_now().0;
        let r = self.checked_total_in_period(now, period);
        assert(opt_view(r) == period_total(self@, now as int, period));
        r
    }

    /// The sum over all accounts of this month's transactions, or `None` where it overflows.
    pub fn total_for_current_month_usd(&self) -> (r: Option<Amount>)
        ensures
            exists|now: i64|
                valid_timestamp(now as int) && opt_view(r) == period_total(self@, now as int, Period::CurrentMonth),
    {
        self.total_in_period_now(Period::CurrentMonth)
    }

    /// The sum over all accounts of last month's transactions, or `None` where it overflows.
    pub fn total_for_last_month_usd(&self) -> (r: Option<Amount>)
        ensures
            exists|now: i64|
                valid_timestamp(now as int) && opt_view(r) == period_total(self@, now as int, Period::LastMonth),
    {
        self.total_in_period_now(Period::LastMonth)
    }

    /// The sum over all accounts of this year's transactions, or `None` where it overflows.
    pub fn total_for_current_year_usd(&self) -> (r: Option<Amount>)
        ensures
            exists|now: i64|
                valid_timestamp(now as int) && opt_view(r) == period_total(self@, now as int, Period::CurrentYear),
    {
        self.total_in_period_now(Period::CurrentYear)
    }

    /// The sum over all accounts of last year's transactions, or `None` where it overflows.
    pub fn total_for_last_year_usd(&self) -> (r: Option<Amount>)
        ensures
            exists|now: i64|
                valid_timestamp(now as int) && opt_view(r) == period_total(self@, now as int, Period::LastYear),
    {
        self.total_in_period_now(Period::LastYear)
    }
}


/// The transactions of all accounts, account after account.
pub open spec fn all_txs(s: Seq<AccountView>) -> Seq<TxView>
    decreases s.len(),
{
    if s.len() == 0 {
        Seq::<TxView>::empty()
    } else {
        all_txs(s.drop_last()).add(s.last().txs_1st)
    }
}

/// `t` with the balance `b`.
pub open spec fn with_balance(t: TxView, b: (int, int)) -> TxView {
    TxView { amount: t.amount, balance: amount_of(b), comment: t.comment, date: t.date }
}

/// `s` with each transaction's balance set to the sum of the amounts up to and including
/// it; `None` where a sum overflows.
pub open spec fn running_balances(s: Seq<TxView>) -> Option<Seq<TxView>>
    decreases s.len(),
{
    if s.len() == 0 {
        Some(s)
    } else {
        match (running_balances(s.drop_last()), sum_of(tx_amounts(s))) {
            (Some(init), Some(b)) => Some(init.push(with_balance(s.last(), b))),
            _ => None,
        }
    }
}

/// An account named "graph data", in US dollars, that holds the transactions of all
/// accounts ordered by date, each with the balance of all of them up to it.
pub open spec fn graph_account(v: AccountsView) -> Option<AccountView> {
    match running_balances(sort_by_date(all_txs(v.inner))) {
        Some(txs) => Some(
            AccountView {
                name: "graph data"@,
                currency: Currency::Usd,
                txs_1st: txs,
                txs_monthly: Seq::<TxView>::empty(),
            },
        ),
        None => None,
    }
}

/// The transactions booked for the monthly transactions `ms` on `day`, each with the
/// balance `b0` plus the monthly amounts up to and including it; `None` where a sum
/// overflows.
pub open spec fn monthly_entries(b0: (int, int), ms: Seq<TxView>, day: i64) -> Option<Seq<TxView>>
    decreases ms.len(),
{
    if ms.len() == 0 {
        Some(Seq::<TxView>::empty())
    } else {
        match (monthly_entries(b0, ms.drop_last(), day), sum_from(b0, tx_amounts(ms))) {
            (Some(init), Some(b)) => Some(
                init.push(
                    TxView {
                        amount: ms.last().amount,
                        balance: amount_of(b),
                        comment: ms.last().comment,
                        date: day,
                    },
                ),
            ),
            _ => None,
        }
    }
}

/// An account with its monthly transactions booked on `day`, its transactions then
/// ordered by date.
pub open spec fn book_monthly(a: AccountView, day: i64) -> Option<AccountView> {
    match account_balance(a) {
        None => None,
        Some(b0) => match monthly_entries(b0, a.txs_monthly, day) {
            None => None,
            Some(entries) => Some(
                AccountView {
                    name: a.name,
                    currency: a.currency,
                    txs_1st: sort_by_date(a.txs_1st.add(entries)),
                    txs_monthly: a.txs_monthly,
                },
            ),
        },
    }
}

/// Every account with its monthly transactions booked on `day`.
pub open spec fn book_all(s: Seq<AccountView>, day: i64) -> Option<Seq<AccountView>>
    decreases s.len(),
{
    if s.len() == 0 {
        Some(Seq::<AccountView>::empty())
    } else {
        match (book_all(s.drop_last(), day), book_monthly(s.last(), day)) {
            (Some(init), Some(a)) => Some(init.push(a)),
            _ => None,
        }
    }
}

/// The accounts after the monthly check at `now`, whose month starts at `day_1`: when the
/// month started since the last check (and before `now`), every account's monthly
/// transactions are booked on `day_1`; the accounts are then checked up to `now`.
pub open spec fn after_check_monthly(v: AccountsView, now: i64, day_1: i64) -> Option<AccountsView> {
    if v.checked_up_to <= day_1 && day_1 < now {
        match book_all(v.inner, day_1) {
            Some(inner) => Some(
                AccountsView {
                    checked_up_to: now,
                    total_crypto: v.total_crypto,
                    total_metals: v.total_metals,
                    inner,
                },
            ),
            None => None,
        }
    } else {
        Some(
            AccountsView {
                checked_up_to: now,
                total_crypto: v.total_crypto,
                total_metals: v.total_metals,
                inner: v.inner,
            },
        )
    }
}

/// Gives each transaction of `txs` the sum of the amounts up to and including it as its
/// balance; `None` where a sum overflows.
fn set_running_balances(txs: &mut Vec<Transaction>) -> (ok: bool)
    ensures
        match running_balances(txs_view(old(txs)@)) {
            Some(b) => ok && txs_view(final(txs)@) == b,
            None => !ok,
        },
{
    let ghost s = txs_view(txs@);
    let mut balance = Amount::zero();
    let n = txs.len();
    let mut k: usize = 0;
    while k < n
        invariant
            0 <= k <= n,
            s == txs_view(old(txs)@),
            s.len() == txs.len(),
            n == txs.len(),
            running_balances(s.take(k as int)) == Some(txs_view(txs@).take(k as int)),
            forall|j: int| k <= j < txs.len() ==> txs@[j]@ == s[j],
            Some(balance@) == sum_of(tx_amounts(s.take(k as int))),
            is_decimal(balance@),
        decreases n - k,
    {
        assert(s.take(k + 1).drop_last() =~= s.take(k as int));
        assert(tx_amounts(s.take(k + 1)).drop_last() =~= tx_amounts(s.take(k as int)));
        match balance.checked_add(&txs[k].amount) {
            Some(b) => balance = b,
            None => {
                proof {
                    lemma_running_none_stays(s, k + 1, s.len() as int);
                    assert(s.take(s.len() as int) =~= s);
                }
                return false;
            },
        }
        let ghost before = txs_view(txs@);
        let mut t = txs[k].duplicate();
        t.balance = balance;
        txs.set(k, t);
        assert(txs_view(txs@).take(k + 1) =~= before.take(k as int).push(with_balance(s[k as int], balance@)));
        k = k + 1;
    }
    assert(s.take(txs.len() as int) =~= s);
    assert(txs_view(txs@).take(txs.len() as int) =~= txs_view(txs@));
    true
}

/// Once the running balances of a prefix overflow, those of a longer prefix do too.
proof fn lemma_running_none_stays(s: Seq<TxView>, i: int, j: int)
    requires
        0 <= i <= j <= s.len(),
        running_balances(s.take(i)) is None,
    ensures
        running_balances(s.take(j)) is None,
    decreases j - i,
{
    if i < j {
        lemma_running_none_stays(s, i, j - 1);
        assert(s.take(j).drop_last() =~= s.take(j - 1));
    }
}

/// Once booking the accounts of a prefix fails, booking those of a longer prefix fails too.
proof fn lemma_book_none_stays(s: Seq<AccountView>, day: i64, i: int, j: int)
    requires
        0 <= i <= j <= s.len(),
        book_all(s.take(i), day) is None,
    ensures
        book_all(s.take(j), day) is None,
    decreases j - i,
{
    if i < j {
        lemma_book_none_stays(s, day, i, j - 1);
        assert(s.take(j).drop_last() =~= s.take(j - 1));
    }
}

/// Once the entries booked for a prefix of the monthly transactions overflow, those of a
/// longer prefix do too.
proof fn lemma_entries_none_stays(b0: (int, int), ms: Seq<TxView>, day: i64, i: int, j: int)
    requires
        0 <= i <= j <= ms.len(),
        monthly_entries(b0, ms.take(i), day) is None,
    ensures
        monthly_entries(b0, ms.take(j), day) is None,
    decreases j - i,
{
    if i < j {
        lemma_entries_none_stays(b0, ms, day, i, j - 1);
        assert(ms.take(j).drop_last() =~= ms.take(j - 1));
    }
}

/// One account with its monthly transactions booked on `day`; `None` where a sum overflows.
fn book_monthly_txs(a: &Account, day: i64) -> (r: Option<Account>)
    ensures
        match book_monthly(a@, day) {
            Some(b) => r matches Some(x) && x@ == b,
            None => r is None,
        },
{
    let b0 = match a.checked_balance() {
        Some(b) => b,
        None => return None,
    };
    let ghost ms = a@.txs_monthly;
    let mut txs = crate::app::account::transaction::duplicate_txs(&a.txs_1st);
    let ghost base = txs_view(txs@);
    let mut balance = b0;
    let mut entries: Vec<Transaction> = Vec::new();
    for k in 0..a.txs_monthly.len()
        invariant
            ms == a@.txs_monthly,
            monthly_entries(b0@, ms.take(k as int), day) == Some(txs_view(entries@)),
            Some(b0@) == account_balance(a@),
            Some(balance@) == sum_from(b0@, tx_amounts(ms.take(k as int))),
            is_decimal(balance@),
    {
        assert(ms.take(k + 1).drop_last() =~= ms.take(k as int));
        assert(tx_amounts(ms.take(k + 1)).drop_last() =~= tx_amounts(ms.take(k as int)));
        let m = &a.txs_monthly[k];
        match balance.checked_add(&m.amount) {
            Some(b) => balance = b,
            None => {
                proof {
                    lemma_entries_none_stays(b0@, ms, day, k + 1, ms.len() as int);
                    assert(ms.take(ms.len() as int) =~= ms);
                }
                return None;
            },
        }
        let ghost e = txs_view(entries@);
        entries.push(
            Transaction { amount: m.amount, balance, comment: m.comment.clone(), date: day },
        );
        assert(txs_view(entries@) =~= e.push(
            TxView { amount: m.amount, balance: amount_of(balance@), comment: m@.comment, date: day },
        ));
    }
    assert(ms.take(a.txs_monthly.len() as int) =~= ms);
    let ghost es = txs_view(entries@);
    txs.append(&mut entries);
    assert(txs_view(txs@) =~= base.add(es));
    sort_txs_by_date(&mut txs);
    Some(
        Account {
            name: a.name.clone(),
            currency: a.currency,
            txs_1st: txs,
            txs_monthly: crate::app::account::transaction::duplicate_txs(&a.txs_monthly),
        },
    )
}

impl Accounts {
    /// An account named "graph data" that holds the transactions of all accounts ordered by
    /// date (those of equal dates in account order), each with the balance of all of them
    /// up to it; `None` where a balance overflows.
    pub fn checked_all_accounts_txs(&self) -> (r: Option<Account>)
        ensures
            match graph_account(self@) {
                Some(g) => r matches Some(a) && a@ == g,
                None => r is None,
            },
    {
        let ghost s = self@.inner;
        let mut txs: Vec<Transaction> = Vec::new();
        for i in 0..self.inner.len()
            invariant
                s == self@.inner,
                txs_view(txs@) == all_txs(s.take(i as int)),
        {
            assert(s.take(i + 1).drop_last() =~= s.take(i as int));
            let account = &self.inner[i];
            let ghost before = txs_view(txs@);
            for j in 0..account.txs_1st.len()
                invariant
                    txs_view(txs@) == before.add(account@.txs_1st.take(j as int)),
            {
                let ghost b = txs_view(txs@);
                txs.push(account.txs_1st[j].duplicate());
                assert(txs_view(txs@) =~= before.add(account@.txs_1st.take(j + 1))) by {
                    assert(txs_view(txs@) =~= b.push(account@.txs_1st[j as int]));
                }
            }
            assert(account@.txs_1st.take(account.txs_1st.len() as int) =~= account@.txs_1st);
        }
        assert(s.take(self.inner.len() as int) =~= s);
        sort_txs_by_date(&mut txs);
        if !set_running_balances(&mut txs) {
            return None;
        }
        let mut account = Account::new(String::from_str("graph data"), Currency::Usd);
        account.txs_1st = txs;
        Some(account)
    }

    /// An account named "graph data" that holds the transactions of all accounts ordered by
    /// date (those of equal dates in account order), each with the balance of all of them
    /// up to it.
    pub fn all_accounts_txs(&self) -> (r: Account)
        requires
            graph_account(self@) is Some,
        ensures
            Some(r@) == graph_account(self@),
    {
        self.checked_all_accounts_txs().unwrap()
    }

    /// The monthly check at the instant `now`, whose month starts at `day_1`: when the
    /// month started since the last check and before `now`, each account's monthly
    /// transactions are booked on `day_1`, each with the account's running balance, and
    /// its transactions ordered by date; the accounts are then checked up to `now`.
    /// Returns false, leaving the accounts unchanged, where a balance overflows.
    pub fn check_monthly_at(&mut self, now: i64, day_1: i64) -> (done: bool)
        ensures
            match after_check_monthly(old(self)@, now, day_1) {
                Some(v) => done && final(self)@ == v,
                None => !done && final(self)@ == old(self)@,
            },
    {
        if self.checked_up_to <= day_1 && day_1 < now {
            let ghost s = self@.inner;
            let mut booked: Vec<Account> = Vec::new();
            for i in 0..self.inner.len()
                invariant
                    s == self@.inner,
                    book_all(s.take(i as int), day_1) == Some(accounts_view(booked@)),
                    self.checked_up_to <= day_1 && day_1 < now,
            {
                assert(s.take(i + 1).drop_last() =~= s.take(i as int));
                match book_monthly_txs(&self.inner[i], day_1) {
                    Some(a) => {
                        let ghost before = accounts_view(booked@);
                        booked.push(a);
                        assert(accounts_view(booked@) =~= before.push(a@));
                    },
                    None => {
                        proof {
                            lemma_book_none_stays(s, day_1, i + 1, s.len() as int);
                            assert(s.take(s.len() as int) =~= s);
                        }
                        return false;
                    },
                }
            }
            assert(s.take(self.inner.len() as int) =~= s);
            self.inner = booked;
        }
        self.checked_up_to = now;
        true
    }

    /// The monthly check at the clock's current instant, `secs` seconds and `nanos`
    /// nanoseconds, whose month starts at `day_1` (see [`Accounts::check_monthly_at`]): the
    /// check is made up to that instant rounded up to a whole second, at which the
    /// accounts' whole-second instants compare as at the instant itself. Returns false,
    /// leaving the accounts unchanged, exactly where a balance overflows.
    pub fn check_monthly(&mut self) -> (done: bool)
        ensures
            exists|secs: i64, nanos: u32, day_1: i64|
                {
                    &&& valid_timestamp(secs as int)
                    &&& nanos < 1_000_000_000
                    &&& month_start(secs as int) == Some(day_1 as int)
                    &&& done <==> after_check_monthly(
                        old(self)@,
                        seconds_up(secs, nanos) as i64,
                        day_1,
                    ) is Some
                    &&& #[trigger] monthly_check_outcome(
                        old(self)@,
                        final(self)@,
                        done,
                        secs,
                        nanos,
                        day_1,
                    )
                },
    {
        let (secs, nanos) = utc_now();
        let up_to: i64 = if nanos > 0 {
            secs + 1
        } else {
            secs
        };
        match first_of_month(secs) {
            // `secs` comes from the clock, so `chrono` gives the start of its month.
            None => false,
            Some(day_1) => {
                let ghost before = self@;
                let done = self.check_monthly_at(up_to, day_1);
                assert(monthly_check_outcome(before, self@, done, secs, nanos, day_1));
                done
            },
        }
    }
}

/// What the monthly check at the instant `secs` seconds and `nanos` nanoseconds did, the
/// month of that instant starting at `day_1`: where `chrono` cannot give the start of that
/// month, nothing (and it reports failure); otherwise the check of
/// [`after_check_monthly`] up to the instant rounded up to a whole second when it
/// succeeds, and nothing (reporting failure) where a balance overflows.
pub open spec fn monthly_check_outcome(
    before: AccountsView,
    after: AccountsView,
    done: bool,
    secs: i64,
    nanos: u32,
    day_1: i64,
) -> bool {
    match month_start(secs as int) {
        None => !done && after == before,
        Some(d) => d == day_1 as int && match after_check_monthly(
            before,
            seconds_up(secs, nanos) as i64,
            day_1,
        ) {
            Some(v) => done && after == v,
            None => !done && after == before,
        },
    }
}

/// Checking the month twice at the same instant books the monthly transactions once: the
/// second check changes nothing.
pub proof fn lemma_check_monthly_once(v: AccountsView, now: i64, day_1: i64)
    requires
        after_check_monthly(v, now, day_1) is Some,
    ensures
        after_check_monthly(
            after_check_monthly(v, now, day_1).unwrap(),
            now,
            day_1,
        ) == after_check_monthly(v, now, day_1),
{
}


/// What a transaction holds but its balance.
pub open spec fn entry_of(t: TxView) -> (Amount, Seq<char>, i64) {
    (t.amount, t.comment, t.date)
}

/// Setting running balances changes nothing of the transactions but their balances.
proof fn lemma_running_keeps_entries(s: Seq<TxView>, d: i64)
    requires
        running_balances(s) is Some,
    ensures
        running_balances(s).unwrap().len() == s.len(),
        forall|i: int|
            0 <= i < s.len() ==> entry_of(#[trigger] running_balances(s).unwrap()[i]) == entry_of(
                s[i],
            ),
        dated(running_balances(s).unwrap(), d).map_values(|t: TxView| entry_of(t)) == dated(
            s,
            d,
        ).map_values(|t: TxView| entry_of(t)),
    decreases s.len(),
{
    if s.len() > 0 {
        lemma_running_keeps_entries(s.drop_last(), d);
        let r0 = running_balances(s.drop_last()).unwrap();
        let r = running_balances(s).unwrap();
        assert(r.drop_last() =~= r0);
        assert forall|i: int| 0 <= i < s.len() implies entry_of(#[trigger] r[i]) == entry_of(s[i]) by {
            if i < s.len() - 1 {
                assert(r[i] == r0[i]);
                assert(s[i] == s.drop_last()[i]);
            }
        }
        let f = |t: TxView| entry_of(t);
        if s.last().date == d {
            assert(dated(r, d).map_values(f) =~= dated(r0, d).map_values(f).push(entry_of(r.last())));
            assert(dated(s, d).map_values(f) =~= dated(s.drop_last(), d).map_values(f).push(entry_of(s.last())));
        } else {
            assert(dated(r, d) == dated(r0, d));
        }
    }
}

/// The graph account lists the transactions of all accounts ordered by date; for every
/// date, it lists the transactions of that date that the accounts hold, in account order,
/// changed only in their balances.
pub proof fn lemma_graph_account_ordered(v: AccountsView, d: i64)
    requires
        graph_account(v) is Some,
    ensures
        is_sorted_by_date(graph_account(v).unwrap().txs_1st),
        graph_account(v).unwrap().txs_1st.len() == all_txs(v.inner).len(),
        dated(graph_account(v).unwrap().txs_1st, d).map_values(|t: TxView| entry_of(t)) == dated(
            all_txs(v.inner),
            d,
        ).map_values(|t: TxView| entry_of(t)),
{
    let all = all_txs(v.inner);
    let sorted = sort_by_date(all);
    lemma_sort_is_sorted(all);
    lemma_sort_keeps_dated(all, d);
    lemma_running_keeps_entries(sorted, d);
    let g = graph_account(v).unwrap().txs_1st;
    assert forall|i: int, j: int| 0 <= i <= j < g.len() implies g[i].date <= g[j].date by {
        assert(entry_of(g[i]) == entry_of(sorted[i]));
        assert(entry_of(g[j]) == entry_of(sorted[j]));
    }
}


/// The monthly booking adds one transaction per monthly transaction, with its amount and
/// comment, dated on the booking day.
pub proof fn lemma_monthly_entries_match(b0: (int, int), ms: Seq<TxView>, day: i64)
    requires
        monthly_entries(b0, ms, day) is Some,
    ensures
        monthly_entries(b0, ms, day).unwrap().len() == ms.len(),
        forall|i: int|
            0 <= i < ms.len() ==> {
                let e = #[trigger] monthly_entries(b0, ms, day).unwrap()[i];
                e.amount == ms[i].amount && e.comment == ms[i].comment && e.date == day
            },
    decreases ms.len(),
{
    if ms.len() > 0 {
        lemma_monthly_entries_match(b0, ms.drop_last(), day);
        let e0 = monthly_entries(b0, ms.drop_last(), day).unwrap();
        let e = monthly_entries(b0, ms, day).unwrap();
        assert forall|i: int| 0 <= i < ms.len() implies {
            let x = #[trigger] e[i];
            x.amount == ms[i].amount && x.comment == ms[i].comment && x.date == day
        } by {
            if i < ms.len() - 1 {
                assert(e[i] == e0[i]);
                assert(ms[i] == ms.drop_last()[i]);
            }
        }
    }
}

/// The balance booked with the monthly transaction `i` is the balance `b0` before the
/// check plus the amounts of the monthly transactions up to and including `i`, added in
/// their order: a running balance, not `b0` plus the transaction's own amount.
pub proof fn lemma_booked_balances(b0: (int, int), ms: Seq<TxView>, day: i64)
    requires
        monthly_entries(b0, ms, day) is Some,
    ensures
        forall|i: int|
            #![trigger monthly_entries(b0, ms, day).unwrap()[i]]
            #![trigger sum_from(b0, tx_amounts(ms.take(i + 1)))]
            0 <= i < ms.len() ==> {
                &&& sum_from(b0, tx_amounts(ms.take(i + 1))) is Some
                &&& monthly_entries(b0, ms, day).unwrap()[i].balance == amount_of(
                    sum_from(b0, tx_amounts(ms.take(i + 1))).unwrap(),
                )
            },
    decreases ms.len(),
{
    if ms.len() > 0 {
        let n = ms.len() - 1;
        lemma_booked_balances(b0, ms.drop_last(), day);
        assert(monthly_entries(b0, ms.drop_last(), day) is Some);
        assert(sum_from(b0, tx_amounts(ms)) is Some);
        let e0 = monthly_entries(b0, ms.drop_last(), day).unwrap();
        let e = monthly_entries(b0, ms, day).unwrap();
        let b = sum_from(b0, tx_amounts(ms)).unwrap();
        lemma_monthly_entries_match(b0, ms.drop_last(), day);
        assert(e == e0.push(
            TxView { amount: ms.last().amount, balance: amount_of(b), comment: ms.last().comment, date: day },
        ));
        assert(ms.take(n + 1) =~= ms);
        assert forall|i: int|
            #![trigger monthly_entries(b0, ms, day).unwrap()[i]]
            #![trigger sum_from(b0, tx_amounts(ms.take(i + 1)))]
            0 <= i < ms.len() implies (sum_from(b0, tx_amounts(ms.take(i + 1))) is Some
                && monthly_entries(b0, ms, day).unwrap()[i].balance == amount_of(
                sum_from(b0, tx_amounts(ms.take(i + 1))).unwrap(),
            )) by {
            if i < n {
                assert(e[i] == e0[i]);
                assert(ms.drop_last().take(i + 1) =~= ms.take(i + 1));
                assert(e0[i] == monthly_entries(b0, ms.drop_last(), day).unwrap()[i]);
            }
        }
    }
}

/// After booking, the balance of the last booked entry is the sum of the amounts of all
/// the account's transactions: those it held, then the booked ones.
pub proof fn lemma_last_booked_balance(a: AccountView, day: i64)
    requires
        book_monthly(a, day) is Some,
        a.txs_monthly.len() > 0,
    ensures
        ({
            let e = monthly_entries(account_balance(a).unwrap(), a.txs_monthly, day).unwrap();
            &&& sum_of(tx_amounts(a.txs_1st + e)) is Some
            &&& e.last().balance == amount_of(sum_of(tx_amounts(a.txs_1st + e)).unwrap())
        }),
{
    let b0 = account_balance(a).unwrap();
    let ms = a.txs_monthly;
    let e = monthly_entries(b0, ms, day).unwrap();
    lemma_booked_balances(b0, ms, day);
    lemma_monthly_entries_match(b0, ms, day);
    assert(tx_amounts(e) =~= tx_amounts(ms));
    assert(tx_amounts(a.txs_1st + e) =~= tx_amounts(a.txs_1st) + tx_amounts(e));
    lemma_sum_concat((0, 0), tx_amounts(a.txs_1st), tx_amounts(e));
    assert(ms.take(ms.len() as int) =~= ms);
    assert(e.last() == e[ms.len() - 1]);
}

/// Booking an account's monthly transactions keeps its transactions ordered by date, and,
/// for every date, its transactions of that date are those it held followed by the
/// booked ones.
pub proof fn lemma_booking_keeps_transactions(a: AccountView, day: i64, d: i64)
    requires
        book_monthly(a, day) is Some,
    ensures
        is_sorted_by_date(book_monthly(a, day).unwrap().txs_1st),
        dated(book_monthly(a, day).unwrap().txs_1st, d) == dated(
            a.txs_1st.add(monthly_entries(account_balance(a).unwrap(), a.txs_monthly, day).unwrap()),
            d,
        ),
{
    let all = a.txs_1st.add(monthly_entries(account_balance(a).unwrap(), a.txs_monthly, day).unwrap());
    lemma_sort_is_sorted(all);
    lemma_sort_keeps_dated(all, d);
}


/// With running balances, each transaction's balance is the sum of the amounts of the
/// transactions up to and including it.
pub proof fn lemma_running_balance_is_prefix_sum(s: Seq<TxView>, i: int)
    requires
        running_balances(s) is Some,
        0 <= i < s.len(),
    ensures
        sum_of(tx_amounts(s.take(i + 1))) is Some,
        running_balances(s).unwrap()[i].balance == amount_of(sum_of(tx_amounts(s.take(i + 1))).unwrap()),
    decreases s.len(),
{
    let r = running_balances(s).unwrap();
    let r0 = running_balances(s.drop_last()).unwrap();
    assert(r == r0.push(with_balance(s.last(), sum_of(tx_amounts(s)).unwrap())));
    lemma_running_keeps_entries(s.drop_last(), 0);
    if i == s.len() - 1 {
        assert(s.take(i + 1) =~= s);
    } else {
        lemma_running_balance_is_prefix_sum(s.drop_last(), i);
        assert(s.drop_last().take(i + 1) =~= s.take(i + 1));
        assert(r[i] == r0[i]);
    }
}

/// Projecting the balance without a number of months gives the balance.
pub proof fn lemma_projection_without_months(v: AccountsView)
    ensures
        projected_balance(v, None) == total_balance(v),
{
}

} // verus!
