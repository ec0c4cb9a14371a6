//! Accounts, each with a ledger, and what the user does to them.
use crate::amount::{
    amount_of, decimal_parse_exact, decimal_text, decimal_text_with_commas, lemma_sum_none_stays,
    opt_view, sum_from, Amount,
};
use crate::datetime::{add_months, months_later, opt_int};
use crate::ledger::{
    is_fresh_tx, ledger_sum, txs_view, Ledger, LedgerView, Transaction, TxView,
};
use vstd::prelude::*;
use vstd::utf8::encode_utf8;

verus! {

/// A range of instants, one month apart, from the first (`.0`) to before the second
/// (`.1`). Each step first moves `.0` one month on, then gives the old `.0` if it lies
/// before `.1`.
pub struct DateRange(pub i64, pub i64);

/// How far `cur` lies before `end` (zero when it does not).
pub open spec fn gap(cur: int, end: int) -> int {
    if cur < end {
        end - cur
    } else {
        0
    }
}

/// The instants that the steps of `DateRange(cur, end)` give, in order, until the first
/// step that gives nothing; `None` when `chrono` fails to move an instant one month on.
pub open spec fn range_dates(cur: int, end: int) -> Option<Seq<int>>
    decreases gap(cur, end),
{
    match months_later(cur, 1) {
        None => None,
        Some(next) => if cur < end {
            if cur < next {
                match range_dates(next, end) {
                    Some(rest) => Some(seq![cur].add(rest)),
                    None => None,
                }
            } else {
                None
            }
        } else {
            Some(Seq::<int>::empty())
        },
    }
}

/// The instants of `DateRange(start, end)` after the first one, as
/// `DateRange(start, end).skip(1)` gives them.
pub open spec fn projected_dates(start: int, end: int) -> Option<Seq<int>> {
    match range_dates(start, end) {
        Some(s) => Some(
            if s.len() > 0 {
                s.drop_first()
            } else {
                s
            },
        ),
        None => None,
    }
}

impl DateRange {
    /// The next instant of the range, as `Iterator::next` gives it: the current instant
    /// if it lies before the end; the range moves one month on either way.
    pub fn next(&mut self) -> (r: Option<i64>)
        requires
            months_later(old(self).0 as int, 1) is Some,
        ensures
            Some(final(self).0 as int) == months_later(old(self).0 as int, 1),
            final(self).1 == old(self).1,
            old(self).0 < final(self).0,
            r == if old(self).0 < old(self).1 {
                Some(old(self).0)
            } else {
                None
            },
    {
        let current = self.0;
        self.0 = add_months(current, 1).unwrap();
        if current < self.1 {
            Some(current)
        } else {
            None
        }
    }

    /// One step of the range: `Some(r)` with `r` what [`DateRange::next`] gives, or `None`
    /// (and the range unchanged) where `chrono` cannot move the current instant one month on.
    pub fn try_next(&mut self) -> (r: Option<Option<i64>>)
        ensures
            match months_later(old(self).0 as int, 1) {
                None => r is None && *final(self) == *old(self),
                Some(next) => {
                    &&& final(self).0 == next
                    &&& final(self).1 == old(self).1
                    &&& old(self).0 < final(self).0
                    &&& r == Some(
                        if old(self).0 < old(self).1 {
                            Some(old(self).0)
                        } else {
                            None
                        },
                    )
                },
            },
    {
        match add_months(self.0, 1) {
            None => None,
            Some(_) => Some(self.next()),
        }
    }
}

/// The instants that `DateRange(start, end).skip(1)` gives, or `None` where a month step
/// fails.
pub fn dates_after_first(start: i64, end: i64) -> (r: Option<Vec<i64>>)
    ensures
        match projected_dates(start as int, end as int) {
            Some(s) => r matches Some(v) && v@.map_values(|d: i64| d as int) == s,
            None => r is None,
        },
{
    let mut range = DateRange(start, end);
    let mut dates: Vec<i64> = Vec::new();
    match range.try_next() {
        None => return None,
        Some(None) => {
            assert(dates@.map_values(|d: i64| d as int) =~= Seq::<int>::empty());
            return Some(dates);
        },
        Some(Some(_)) => {},
    }
    assert(range_dates(start as int, end as int) == match range_dates(range.0 as int, end as int) {
        Some(rest) => Some(seq![start as int].add(rest)),
        None => None,
    });
    loop
        invariant
            range.1 == end,
            projected_dates(start as int, end as int) == match range_dates(
                range.0 as int,
                end as int,
            ) {
                Some(rest) => Some(dates@.map_values(|d: i64| d as int).add(rest)),
                None => None,
            },
        decreases gap(range.0 as int, end as int),
    {
        let ghost before = range.0;
        assert(dates@.map_values(|d: i64| d as int) =~= dates@.map_values(|d: i64| d as int).add(
            Seq::<int>::empty(),
        ));
        match range.try_next() {
            None => return None,
            Some(None) => return Some(dates),
            Some(Some(d)) => {
                let ghost old_dates = dates@;
                dates.push(d);
                assert(dates@.map_values(|x: i64| x as int) =~= old_dates.map_values(
                    |x: i64| x as int,
                ).push(d as int));
                assert(range_dates(before as int, end as int) == match range_dates(
                    range.0 as int,
                    end as int,
                ) {
                    Some(rest) => Some(seq![before as int].add(rest)),
                    None => None,
                });
                assert forall|rest: Seq<int>|
                    old_dates.map_values(|x: i64| x as int).add(seq![before as int].add(rest))
                        =~= dates@.map_values(|x: i64| x as int).add(rest) by {}
            },
        }
    }
}


/// An account: a name and its ledger.
#[derive(Clone, Debug)]
pub struct Account {
    pub name: String,
    pub ledger: Ledger,
}

/// What an [`Account`] holds.
pub struct AccountView {
    pub name: Seq<char>,
    pub ledger: LedgerView,
}

impl View for Account {
    type V = AccountView;

    open spec fn view(&self) -> AccountView {
        AccountView { name: self.name@, ledger: self.ledger@ }
    }
}

/// The views of a sequence of accounts.
pub open spec fn accounts_view(s: Seq<Account>) -> Seq<AccountView> {
    s.map_values(|a: Account| a@)
}

impl Account {
    /// A new account with an empty ledger.
    pub fn new(name: String) -> (r: Account)
        ensures
            r@.name == name@,
            r@.ledger.data == Seq::<TxView>::empty(),
            is_fresh_tx(r@.ledger.tx),
            r@.ledger.amount == Seq::<char>::empty(),
    {
        Account { name, ledger: Ledger::new() }
    }

    /// A copy of the account.
    pub fn duplicate(&self) -> (r: Account)
        ensures
            r@ == self@,
    {
        Account { name: self.name.clone(), ledger: self.ledger.duplicate() }
    }
}

/// All accounts, the account selected for editing, the name of the account being
/// entered, and the instant up to which repeating transactions were checked.
#[derive(Clone, Debug)]
pub struct Accounts {
    pub name: String,
    pub selected: Option<usize>,
    pub accounts: Vec<Account>,
    /// UNIX timestamp, in seconds.
    pub checked_up_to: i64,
}

/// What [`Accounts`] hold.
pub struct AccountsView {
    pub name: Seq<char>,
    pub selected: Option<usize>,
    pub accounts: Seq<AccountView>,
    pub checked_up_to: i64,
}

impl View for Accounts {
    type V = AccountsView;

    open spec fn view(&self) -> AccountsView {
        AccountsView {
            name: self.name@,
            selected: self.selected,
            accounts: accounts_view(self.accounts@),
            checked_up_to: self.checked_up_to,
        }
    }
}

/// `t` with its `repeats_monthly` flag set to `flag`.
pub open spec fn with_repeats(t: TxView, flag: bool) -> TxView {
    TxView { amount: t.amount, comment: t.comment, date: t.date, repeats_monthly: flag }
}

/// A copy of `t` dated `date` that does not repeat.
pub open spec fn copy_dated(t: TxView, date: int) -> TxView {
    TxView { amount: t.amount, comment: t.comment, date: date as i64, repeats_monthly: false }
}

/// `buf` with its last transaction marked as repeating (when there is one).
pub open spec fn mark_last(buf: Seq<TxView>) -> Seq<TxView> {
    if buf.len() > 0 {
        buf.update(buf.len() - 1, with_repeats(buf.last(), true))
    } else {
        buf
    }
}

/// One transaction of a projection: a transaction that does not repeat is kept; one that
/// does gets a copy for each later month before `end`, dated that month and not repeating
/// (its own flag is cleared when there is a copy), and the last copy so far is marked as
/// repeating. `origs` are the transactions seen so far, `buf` the copies made so far.
pub open spec fn project_step(
    origs: Seq<TxView>,
    buf: Seq<TxView>,
    t: TxView,
    end: Option<int>,
) -> Option<(Seq<TxView>, Seq<TxView>)> {
    if !t.repeats_monthly {
        Some((origs.push(t), buf))
    } else {
        match end {
            None => None,
            Some(e) => match projected_dates(t.date as int, e) {
                None => None,
                Some(dates) => Some(
                    (
                        origs.push(
                            if dates.len() > 0 {
                                with_repeats(t, false)
                            } else {
                                t
                            },
                        ),
                        mark_last(buf.add(dates.map_values(|d: int| copy_dated(t, d)))),
                    ),
                ),
            },
        }
    }
}

/// The transactions seen and the copies made after projecting the transactions `data`.
pub open spec fn project_txs(data: Seq<TxView>, end: Option<int>) -> Option<(Seq<TxView>, Seq<TxView>)>
    decreases data.len(),
{
    if data.len() == 0 {
        Some((Seq::<TxView>::empty(), Seq::<TxView>::empty()))
    } else {
        match project_txs(data.drop_last(), end) {
            None => None,
            Some(p) => project_step(p.0, p.1, data.last(), end),
        }
    }
}

/// An account whose repeating transactions are projected up to `end`: its transactions,
/// followed by the copies.
pub open spec fn project_account(a: AccountView, end: Option<int>) -> Option<AccountView> {
    match project_txs(a.ledger.data, end) {
        None => None,
        Some(p) => Some(
            AccountView {
                name: a.name,
                ledger: LedgerView { data: p.0.add(p.1), tx: a.ledger.tx, amount: a.ledger.amount },
            },
        ),
    }
}

/// Each account projected up to `end`; `None` where one cannot be.
pub open spec fn project_all(s: Seq<AccountView>, end: Option<int>) -> Option<Seq<AccountView>>
    decreases s.len(),
{
    if s.len() == 0 {
        Some(Seq::<AccountView>::empty())
    } else {
        match (project_all(s.drop_last(), end), project_account(s.last(), end)) {
            (Some(init), Some(a)) => Some(init.push(a)),
            _ => None,
        }
    }
}

/// The accounts with their repeating transactions projected `months` months past the
/// instant up to which they were checked.
pub open spec fn projection(v: AccountsView, months: int) -> Option<AccountsView> {
    match project_all(v.accounts, months_later(v.checked_up_to as int, months)) {
        None => None,
        Some(accounts) => Some(
            AccountsView {
                name: v.name,
                selected: v.selected,
                accounts,
                checked_up_to: v.checked_up_to,
            },
        ),
    }
}

/// Projects the transactions of one ledger up to `end`: its transactions followed by the
/// copies of the repeating ones, or `None` where a date cannot be computed.
fn project_ledger_txs(data: &Vec<Transaction>, end: Option<i64>) -> (r: Option<Vec<Transaction>>)
    ensures
        match project_txs(txs_view(data@), opt_int(end)) {
            Some(p) => r matches Some(v) && txs_view(v@) == p.0.add(p.1),
            None => r is None,
        },
{
    let ghost d = txs_view(data@);
    let mut origs: Vec<Transaction> = Vec::new();
    let mut buf: Vec<Transaction> = Vec::new();
    for i in 0..data.len()
        invariant
            d == txs_view(data@),
            project_txs(d.take(i as int), opt_int(end)) == Some((txs_view(origs@), txs_view(buf@))),
    {
        assert(d.take(i + 1).drop_last() =~= d.take(i as int));
        let t = &data[i];
        if !t.repeats_monthly {
            let ghost o = txs_view(origs@);
            origs.push(t.duplicate());
            assert(txs_view(origs@) =~= o.push(t@));
        } else {
            let e = match end {
                None => {
                    proof { lemma_project_none_stays(d, opt_int(end), i + 1, d.len() as int); }
                    assert(d.take(d.len() as int) =~= d);
                    return None;
                },
                Some(e) => e,
            };
            let dates = match dates_after_first(t.date, e) {
                None => {
                    proof { lemma_project_none_stays(d, opt_int(end), i + 1, d.len() as int); }
                    assert(d.take(d.len() as int) =~= d);
                    return None;
                },
                Some(v) => v,
            };
            let ghost ds = dates@.map_values(|x: i64| x as int);
            let ghost o = txs_view(origs@);
            let ghost b0 = txs_view(buf@);
            let mut k: usize = 0;
            while k < dates.len()
                invariant
                    0 <= k <= dates.len(),
                    ds == dates@.map_values(|x: i64| x as int),
                    txs_view(buf@) == b0.add(ds.take(k as int).map_values(|x: int| copy_dated(t@, x))),
                decreases dates.len() - k,
            {
                let mut c = t.duplicate();
                c.repeats_monthly = false;
                c.date = dates[k];
                let ghost bb = txs_view(buf@);
                buf.push(c);
                assert(txs_view(buf@) =~= b0.add(ds.take(k + 1).map_values(|x: int| copy_dated(t@, x)))) by {
                    assert(txs_view(buf@) =~= bb.push(copy_dated(t@, ds[k as int])));
                    assert(ds.take(k + 1).map_values(|x: int| copy_dated(t@, x)) =~= ds.take(k as int).map_values(|x: int| copy_dated(t@, x)).push(copy_dated(t@, ds[k as int])));
                }
                k = k + 1;
            }
            assert(ds.take(dates.len() as int) =~= ds);
            let mut kept = t.duplicate();
            if dates.len() > 0 {
                kept.repeats_monthly = false;
            }
            origs.push(kept);
            assert(txs_view(origs@) =~= o.push(
                if ds.len() > 0 {
                    with_repeats(t@, false)
                } else {
                    t@
                },
            ));
            let len = buf.len();
            if len > 0 {
                let ghost bb = txs_view(buf@);
                let mut last = buf[len - 1].duplicate();
                last.repeats_monthly = true;
                buf.set(len - 1, last);
                assert(txs_view(buf@) =~= mark_last(bb));
            }
        }
    }
    assert(d.take(data.len() as int) =~= d);
    let mut r = origs;
    let ghost o = txs_view(r@);
    let ghost b = txs_view(buf@);
    r.append(&mut buf);
    assert(txs_view(r@) =~= o.add(b));
    Some(r)
}

/// Once projecting a prefix of the transactions fails, projecting a longer prefix fails too.
proof fn lemma_project_none_stays(d: Seq<TxView>, end: Option<int>, i: int, j: int)
    requires
        0 <= i <= j <= d.len(),
        project_txs(d.take(i), end) is None,
    ensures
        project_txs(d.take(j), end) is None,
    decreases j - i,
{
    if i < j {
        lemma_project_none_stays(d, end, i, j - 1);
        assert(d.take(j).drop_last() =~= d.take(j - 1));
    }
}

impl Accounts {
    /// The accounts with every repeating transaction copied to each later month before
    /// `months` months past `checked_up_to` (the last copy of a ledger marked as repeating
    /// in its place), or `None` where `chrono` cannot compute one of the dates.
    fn projected(&self, months: u32) -> (r: Option<Accounts>)
        ensures
            match projection(self@, months as int) {
                Some(p) => r matches Some(a) && a@ == p,
                None => r is None,
            },
    {
        let end = add_months(self.checked_up_to, months);
        let ghost s = accounts_view(self.accounts@);
        let mut out: Vec<Account> = Vec::new();
        for i in 0..self.accounts.len()
            invariant
                s == accounts_view(self.accounts@),
                project_all(s.take(i as int), opt_int(end)) == Some(accounts_view(out@)),
                opt_int(end) == months_later(self.checked_up_to as int, months as int),
        {
            assert(s.take(i + 1).drop_last() =~= s.take(i as int));
            let a = &self.accounts[i];
            match project_ledger_txs(&a.ledger.data, end) {
                None => {
                    proof { lemma_project_all_none_stays(s, opt_int(end), i + 1, s.len() as int); }
                    assert(s.take(s.len() as int) =~= s);
                    return None;
                },
                Some(data) => {
                    let ghost o = accounts_view(out@);
                    out.push(Account {
                        name: a.name.clone(),
                        ledger: Ledger { data, tx: a.ledger.tx.duplicate(), amount: a.ledger.amount.clone() },
                    });
                    assert(accounts_view(out@) =~= o.push(project_account(a@, opt_int(end)).unwrap()));
                },
            }
        }
        assert(s.take(self.accounts.len() as int) =~= s);
        Some(Accounts {
            name: self.name.clone(),
            selected: self.selected,
            accounts: out,
            checked_up_to: self.checked_up_to,
        })
    }

    /// The accounts with every repeating transaction copied to each later month before
    /// `months` months past `checked_up_to` (the last copy of a ledger marked as repeating
    /// in its place).
    pub fn project_months(&self, months: u32) -> (r: Accounts)
        requires
            projection(self@, months as int) is Some,
        ensures
            Some(r@) == projection(self@, months as int),
    {
        self.projected(months).unwrap()
    }

    /// The projection of [`Accounts::project_months`] where it exists, and `None` where
    /// `chrono` cannot compute one of its dates, on which `project_months` may not be called.
    pub fn checked_project_months(&self, months: u32) -> (r: Option<Accounts>)
        ensures
            match projection(self@, months as int) {
                Some(p) => r matches Some(a) && a@ == p,
                None => r is None,
            },
    {
        match self.projected(months) {
            None => None,
            Some(_) => Some(self.project_months(months)),
        }
    }
}

/// Once projecting a prefix of the accounts fails, projecting a longer prefix fails too.
proof fn lemma_project_all_none_stays(s: Seq<AccountView>, end: Option<int>, i: int, j: int)
    requires
        0 <= i <= j <= s.len(),
        project_all(s.take(i), end) is None,
    ensures
        project_all(s.take(j), end) is None,
    decreases j - i,
{
    if i < j {
        lemma_project_all_none_stays(s, end, i, j - 1);
        assert(s.take(j).drop_last() =~= s.take(j - 1));
    }
}


/// What the user asks of the accounts.
#[derive(Clone, Debug)]
pub enum Message {
    /// Leave the selected account.
    Back,
    /// The name of the account being entered changed.
    ChangeAccountName(String),
    /// The amount being entered changed.
    ChangeTx(String),
    /// The comment of the transaction being entered changed.
    ChangeComment(String),
    /// Delete the account at this index.
    DeleteAccount(usize),
    /// Add an account with the name being entered.
    NewAccount,
    /// Select the account at this index.
    SelectAccount(usize),
    /// Add the transaction being entered to the selected account.
    SubmitTx,
}

/// The number of bytes of the UTF-8 encoding of a text.
pub open spec fn byte_len(s: Seq<char>) -> int {
    encode_utf8(s).len() as int
}

/// A text has at least one and at most four bytes per character.
pub proof fn lemma_byte_len_bounds(s: Seq<char>)
    ensures
        s.len() <= byte_len(s) <= 4 * s.len(),
    decreases s.len(),
{
    if s.len() > 0 {
        lemma_byte_len_bounds(s.drop_first());
    }
}

/// The ledger after the text of the amount being entered changed to `text`: a text of two
/// bytes that ends in '.' adds a '.' to the amount's text; a text that is exactly a decimal
/// becomes the transaction's amount, and its text that decimal's text; any other text
/// clears the amount's text.
pub open spec fn ledger_after_text(l: LedgerView, text: Seq<char>) -> LedgerView {
    if byte_len(text) == 2 && text.len() > 0 && text.last() == '.' {
        LedgerView { data: l.data, tx: l.tx, amount: l.amount.push('.') }
    } else {
        match decimal_parse_exact(text) {
            Some(d) => LedgerView {
                data: l.data,
                tx: TxView {
                    amount: amount_of(d),
                    comment: l.tx.comment,
                    date: l.tx.date,
                    repeats_monthly: l.tx.repeats_monthly,
                },
                amount: decimal_text(d),
            },
            None => LedgerView { data: l.data, tx: l.tx, amount: Seq::<char>::empty() },
        }
    }
}

/// The ledger after the comment of the transaction being entered changed to `comment`.
pub open spec fn ledger_after_comment(l: LedgerView, comment: Seq<char>) -> LedgerView {
    LedgerView {
        data: l.data,
        tx: TxView {
            amount: l.tx.amount,
            comment,
            date: l.tx.date,
            repeats_monthly: l.tx.repeats_monthly,
        },
        amount: l.amount,
    }
}

/// Changing the comment of the transaction being entered sets it to exactly the new
/// text, whatever it was before: a later change replaces an earlier one, and nothing else
/// of the ledger changes.
pub proof fn lemma_comment_replaces(l: LedgerView, first: Seq<char>, second: Seq<char>)
    ensures
        ledger_after_comment(l, second).tx.comment == second,
        ledger_after_comment(ledger_after_comment(l, first), second) == ledger_after_comment(
            l,
            second,
        ),
        ledger_after_comment(l, l.tx.comment) == l,
        ledger_after_comment(l, second).data == l.data,
        ledger_after_comment(l, second).amount == l.amount,
        ledger_after_comment(l, second).tx.amount == l.tx.amount,
        ledger_after_comment(l, second).tx.date == l.tx.date,
{
}

/// The ledger after its transaction being entered was added, with `fresh` as the new
/// transaction being entered and no amount text.
pub open spec fn ledger_after_submit(l: LedgerView, fresh: TxView) -> LedgerView {
    LedgerView { data: l.data.push(l.tx), tx: fresh, amount: Seq::<char>::empty() }
}

/// `v` with the ledger of account `i` replaced by `l`.
pub open spec fn with_ledger(v: AccountsView, i: int, l: LedgerView) -> AccountsView {
    AccountsView {
        name: v.name,
        selected: v.selected,
        accounts: v.accounts.update(i, AccountView { name: v.accounts[i].name, ledger: l }),
        checked_up_to: v.checked_up_to,
    }
}

/// The selected account exists.
pub open spec fn has_selection(v: AccountsView) -> bool {
    v.selected matches Some(i) && i < v.accounts.len()
}

/// The accounts can take the message: a message about the selected account needs one, and
/// an account to delete must exist.
pub open spec fn can_update(v: AccountsView, m: Message) -> bool {
    match m {
        Message::ChangeTx(_) => has_selection(v),
        Message::ChangeComment(_) => has_selection(v),
        Message::SubmitTx => has_selection(v),
        Message::DeleteAccount(i) => i < v.accounts.len(),
        _ => true,
    }
}

impl Accounts {
    /// Applies what the user asked.
    pub fn update(&mut self, message: Message)
        requires
            can_update(old(self)@, message),
        ensures
            match message {
                Message::Back => final(self)@ == AccountsView {
                    name: old(self)@.name,
                    selected: None,
                    accounts: old(self)@.accounts,
                    checked_up_to: old(self)@.checked_up_to,
                },
                Message::ChangeAccountName(name) => final(self)@ == AccountsView {
                    name: name@,
                    selected: old(self)@.selected,
                    accounts: old(self)@.accounts,
                    checked_up_to: old(self)@.checked_up_to,
                },
                Message::ChangeTx(text) => {
                    let i = old(self)@.selected.unwrap() as int;
                    final(self)@ == with_ledger(
                        old(self)@,
                        i,
                        ledger_after_text(old(self)@.accounts[i].ledger, text@),
                    )
                },
                Message::ChangeComment(comment) => {
                    let i = old(self)@.selected.unwrap() as int;
                    &&& final(self)@ == with_ledger(
                        old(self)@,
                        i,
                        ledger_after_comment(old(self)@.accounts[i].ledger, comment@),
                    )
                    &&& final(self)@.accounts[i].ledger.tx.comment == comment@
                },
                Message::DeleteAccount(i) => final(self)@ == AccountsView {
                    name: old(self)@.name,
                    selected: old(self)@.selected,
                    accounts: old(self)@.accounts.remove(i as int),
                    checked_up_to: old(self)@.checked_up_to,
                },
                Message::NewAccount => {
                    &&& final(self)@.name == Seq::<char>::empty()
                    &&& final(self)@.selected == old(self)@.selected
                    &&& final(self)@.checked_up_to == old(self)@.checked_up_to
                    &&& final(self)@.accounts.len() == old(self)@.accounts.len() + 1
                    &&& final(self)@.accounts.drop_last() == old(self)@.accounts
                    &&& final(self)@.accounts.last().name == old(self)@.name
                    &&& final(self)@.accounts.last().ledger.data == Seq::<TxView>::empty()
                    &&& is_fresh_tx(final(self)@.accounts.last().ledger.tx)
                    &&& final(self)@.accounts.last().ledger.amount == Seq::<char>::empty()
                },
                Message::SelectAccount(i) => final(self)@ == AccountsView {
                    name: old(self)@.name,
                    selected: Some(i),
                    accounts: old(self)@.accounts,
                    checked_up_to: old(self)@.checked_up_to,
                },
                Message::SubmitTx => {
                    let i = old(self)@.selected.unwrap() as int;
                    &&& is_fresh_tx(final(self)@.accounts[i].ledger.tx)
                    &&& final(self)@ == with_ledger(
                        old(self)@,
                        i,
                        ledger_after_submit(
                            old(self)@.accounts[i].ledger,
                            final(self)@.accounts[i].ledger.tx,
                        ),
                    )
                },
            },
    {
        match message {
            Message::Back => {
                self.selected = None;
            },
            Message::ChangeAccountName(name) => {
                self.name = name;
            },
            Message::ChangeTx(text) => {
                let i = self.selected.unwrap();
                let ghost before = self@;
                let mut account = self.accounts.remove(i);
                let ghost l0 = account.ledger@;
                let n = text.as_str().unicode_len();
                proof {
                    lemma_byte_len_bounds(text@);
                }
                // Two bytes hold at most two characters, so the byte count is only
                // asked of a text of at most two characters.
                if n <= 2 && text.as_str().len() == 2 && n > 0 && text.as_str().get_char(n - 1)
                    == '.' {
                    proof {
                        reveal_strlit(".");
                    }
                    account.ledger.amount.append(".");
                    assert(account.ledger@.amount =~= l0.amount.push('.'));
                    assert(account.ledger@ == ledger_after_text(l0, text@));
                } else {
                    match Amount::from_str_exact(text.as_str()) {
                        Some(d) => {
                            account.ledger.tx.amount = d;
                            account.ledger.amount = d.to_text();
                            assert(account.ledger@ == ledger_after_text(l0, text@));
                        },
                        None => {
                            account.ledger.amount = String::new();
                            assert(account.ledger@ == ledger_after_text(l0, text@));
                        },
                    }
                }
                self.accounts.insert(i, account);
                assert(self@.accounts =~= before.accounts.update(
                    i as int,
                    AccountView {
                        name: before.accounts[i as int].name,
                        ledger: ledger_after_text(before.accounts[i as int].ledger, text@),
                    },
                ));
            },
            Message::ChangeComment(comment) => {
                let i = self.selected.unwrap();
                let ghost before = self@;
                let mut account = self.accounts.remove(i);
                account.ledger.tx.comment = comment;
                self.accounts.insert(i, account);
                assert(self@.accounts =~= before.accounts.update(
                    i as int,
                    AccountView {
                        name: before.accounts[i as int].name,
                        ledger: ledger_after_comment(before.accounts[i as int].ledger, comment@),
                    },
                ));
            },
            Message::DeleteAccount(i) => {
                let ghost before = self@;
                self.accounts.remove(i);
                assert(self@.accounts =~= before.accounts.remove(i as int));
            },
            Message::NewAccount => {
                let ghost before = self@;
                let mut name = String::new();
                std::mem::swap(&mut name, &mut self.name);
                self.accounts.push(Account::new(name));
                assert(self@.accounts.drop_last() =~= before.accounts);
            },
            Message::SelectAccount(i) => {
                self.selected = Some(i);
            },
            Message::SubmitTx => {
                let i = self.selected.unwrap();
                let ghost before = self@;
                let mut account = self.accounts.remove(i);
                let ghost l0 = account.ledger@;
                let submitted = account.ledger.tx.duplicate();
                account.ledger.data.push(submitted);
                assert(account.ledger@.data =~= l0.data.push(l0.tx));
                account.ledger.tx = Transaction::new();
                account.ledger.amount = String::new();
                self.accounts.insert(i, account);
                assert(self@.accounts =~= before.accounts.update(
                    i as int,
                    AccountView {
                        name: before.accounts[i as int].name,
                        ledger: ledger_after_submit(
                            before.accounts[i as int].ledger,
                            self@.accounts[i as int].ledger.tx,
                        ),
                    },
                ));
            },
        }
    }
}


/// The length in bytes of a text, as `str::len` gives it.
pub open spec fn str_len(s: Seq<char>) -> int {
    (encode_utf8(s).len() as usize) as int
}

/// The larger of two integers.
pub open spec fn max_of(a: int, b: int) -> int {
    if a < b {
        b
    } else {
        a
    }
}

/// The widths of the name and balance columns of a listing of `s`: the longest name and
/// the longest balance written with thousands separators, in bytes, and at least the
/// width of the headers " Account " and " Balance " (9); `None` where a balance overflows.
pub open spec fn column_widths(s: Seq<AccountView>) -> Option<(int, int)>
    decreases s.len(),
{
    if s.len() == 0 {
        Some((9, 9))
    } else {
        match (column_widths(s.drop_last()), ledger_sum(s.last().ledger)) {
            (Some(w), Some(sum)) => Some(
                (
                    max_of(w.0, str_len(s.last().name)),
                    max_of(w.1, str_len(decimal_text_with_commas(sum))),
                ),
            ),
            _ => None,
        }
    }
}

/// The balances of the accounts, as terms of a sum.
pub open spec fn account_balances(s: Seq<AccountView>) -> Seq<Option<(int, int)>> {
    s.map_values(|a: AccountView| ledger_sum(a.ledger))
}

/// The total of all balances of a listing, which starts from zero written with two
/// decimals (`0.00`).
pub open spec fn listing_total(s: Seq<AccountView>) -> Option<(int, int)> {
    sum_from((0, 2), account_balances(s))
}

impl Accounts {
    /// The widths of the name and balance columns, or `None` where a balance overflows.
    pub fn checked_name_balance_len(&self) -> (r: Option<(usize, usize)>)
        ensures
            match column_widths(self@.accounts) {
                Some(w) => r matches Some(p) && p.0 as int == w.0 && p.1 as int == w.1,
                None => r is None,
            },
    {
        let ghost s = self@.accounts;
        let mut name_len: usize = 9;
        let mut balance_len: usize = 9;
        for i in 0..self.accounts.len()
            invariant
                s == self@.accounts,
                column_widths(s.take(i as int)) == Some((name_len as int, balance_len as int)),
        {
            assert(s.take(i + 1).drop_last() =~= s.take(i as int));
            let account = &self.accounts[i];
            if account.name.as_str().len() > name_len {
                name_len = account.name.as_str().len();
            }
            let sum = match account.ledger.checked_sum() {
                Some(x) => x,
                None => {
                    proof {
                        lemma_widths_none_stays(s, i + 1, s.len() as int);
                        assert(s.take(s.len() as int) =~= s);
                    }
                    return None;
                },
            };
            let balance = sum.separate_with_commas();
            if balance.as_str().len() > balance_len {
                balance_len = balance.as_str().len();
            }
        }
        assert(s.take(self.accounts.len() as int) =~= s);
        Some((name_len, balance_len))
    }

    /// The widths of the name and balance columns of a listing: the longest name and the
    /// longest balance written with thousands separators, in bytes, and at least 9.
    pub fn name_balance_len(&self) -> (r: (usize, usize))
        requires
            column_widths(self@.accounts) is Some,
        ensures
            Some((r.0 as int, r.1 as int)) == column_widths(self@.accounts),
    {
        self.checked_name_balance_len().unwrap()
    }

    /// The total of all balances as a listing shows it, or `None` where it overflows.
    pub fn checked_total(&self) -> (r: Option<Amount>)
        ensures
            opt_view(r) == listing_total(self@.accounts),
    {
        let ghost terms = account_balances(self@.accounts);
        let mut total = Amount { mantissa: 0, scale: 2 };
        for i in 0..self.accounts.len()
            invariant
                terms == account_balances(self@.accounts),
                Some(total@) == sum_from((0, 2), terms.take(i as int)),
        {
            assert(terms.take(i + 1).drop_last() =~= terms.take(i as int));
            let next = match self.accounts[i].ledger.checked_sum() {
                Some(sum) => total.checked_add(&sum),
                None => None,
            };
            match next {
                Some(t) => total = t,
                None => {
                    proof {
                        lemma_sum_none_stays((0, 2), terms, i + 1, terms.len() as int);
                        assert(terms.take(terms.len() as int) =~= terms);
                    }
                    return None;
                },
            }
        }
        assert(terms.take(self.accounts.len() as int) =~= terms);
        Some(total)
    }

    /// The total of all balances as a listing shows it.
    pub fn total(&self) -> (r: Amount)
        requires
            listing_total(self@.accounts) is Some,
        ensures
            Some(r@) == listing_total(self@.accounts),
    {
        self.checked_total().unwrap()
    }
}

/// Once the widths of a prefix of the accounts cannot be computed, neither can those of
/// a longer prefix.
proof fn lemma_widths_none_stays(s: Seq<AccountView>, i: int, j: int)
    requires
        0 <= i <= j <= s.len(),
        column_widths(s.take(i)) is None,
    ensures
        column_widths(s.take(j)) is None,
    decreases j - i,
{
    if i < j {
        lemma_widths_none_stays(s, i, j - 1);
        assert(s.take(j).drop_last() =~= s.take(j - 1));
    }
}


/// The columns of a listing are at least as wide as their headers, the name column at
/// least as wide as every name, and the balance column at least as wide as every balance
/// written with thousands separators.
pub proof fn lemma_columns_fit(s: Seq<AccountView>)
    requires
        column_widths(s) is Some,
    ensures
        column_widths(s).unwrap().0 >= 9,
        column_widths(s).unwrap().1 >= 9,
        forall|i: int| 0 <= i < s.len() ==> column_widths(s).unwrap().0 >= str_len(#[trigger] s[i].name),
        forall|i: int|
            0 <= i < s.len() ==> column_widths(s).unwrap().1 >= str_len(
                decimal_text_with_commas(ledger_sum(#[trigger] s[i].ledger).unwrap()),
            ),
    decreases s.len(),
{
    if s.len() > 0 {
        lemma_columns_fit(s.drop_last());
        assert forall|i: int| 0 <= i < s.len() - 1 implies s[i] == s.drop_last()[i] by {}
    }
}

/// The instants a range gives lie from its start to before its end, each after the one
/// before it.
pub proof fn lemma_range_dates_ordered(cur: int, end: int)
    requires
        range_dates(cur, end) is Some,
    ensures
        forall|i: int|
            0 <= i < range_dates(cur, end).unwrap().len() ==> cur <= #[trigger] range_dates(
                cur,
                end,
            ).unwrap()[i] < end,
        forall|i: int, j: int|
            0 <= i < j < range_dates(cur, end).unwrap().len() ==> range_dates(cur, end).unwrap()[i]
                < range_dates(cur, end).unwrap()[j],
    decreases gap(cur, end),
{
    if cur < end {
        let next = months_later(cur, 1).unwrap();
        lemma_range_dates_ordered(next, end);
        let rest = range_dates(next, end).unwrap();
        let all = range_dates(cur, end).unwrap();
        assert(all =~= seq![cur].add(rest));
        assert forall|i: int| 0 <= i < all.len() implies cur <= #[trigger] all[i] < end by {
            if i > 0 {
                assert(all[i] == rest[i - 1]);
            }
        }
        assert forall|i: int, j: int| 0 <= i < j < all.len() implies all[i] < all[j] by {
            assert(all[j] == rest[j - 1]);
            if i > 0 {
                assert(all[i] == rest[i - 1]);
            }
        }
    }
}

/// The copies that a projection makes of a repeating transaction are dated after it and
/// before the end of the projection, each after the one before it.
pub proof fn lemma_projected_dates_ordered(start: int, end: int)
    requires
        projected_dates(start, end) is Some,
    ensures
        forall|i: int|
            0 <= i < projected_dates(start, end).unwrap().len() ==> start < #[trigger] projected_dates(
                start,
                end,
            ).unwrap()[i] < end,
        forall|i: int, j: int|
            0 <= i < j < projected_dates(start, end).unwrap().len() ==> projected_dates(
                start,
                end,
            ).unwrap()[i] < projected_dates(start, end).unwrap()[j],
{
    lemma_range_dates_ordered(start, end);
    let all = range_dates(start, end).unwrap();
    if all.len() > 0 {
        let p = projected_dates(start, end).unwrap();
        assert(p =~= all.drop_first());
        assert forall|i: int| 0 <= i < p.len() implies start < #[trigger] p[i] < end by {
            assert(p[i] == all[i + 1]);
            assert(all[0] < all[i + 1]);
            assert(all[0] == start) by {
                let next = months_later(start, 1).unwrap();
                assert(all =~= seq![start].add(range_dates(next, end).unwrap()));
            }
        }
        assert forall|i: int, j: int| 0 <= i < j < p.len() implies p[i] < p[j] by {
            assert(p[i] == all[i + 1]);
            assert(p[j] == all[j + 1]);
        }
    }
}

/// `t` and `u` are the same transaction but for whether they repeat, and `u` repeats only
/// if `t` does.
pub open spec fn same_but_cleared(t: TxView, u: TxView) -> bool {
    &&& u.amount == t.amount
    &&& u.comment == t.comment
    &&& u.date == t.date
    &&& u.repeats_monthly ==> t.repeats_monthly
}

/// `c` has the amount and the comment of a repeating transaction of `data`, and a date
/// after that transaction's and before the end.
pub open spec fn copy_of_repeating(data: Seq<TxView>, end: Option<int>, c: TxView) -> bool {
    exists|i: int|
        0 <= i < data.len() && #[trigger] data[i].repeats_monthly && end is Some && data[i].amount
            == c.amount && data[i].comment == c.comment && data[i].date < c.date < end.unwrap()
}

/// Projecting keeps every transaction of a ledger, in order and in front of the copies,
/// changed at most by no longer repeating; every copy is a transaction of the ledger
/// dated later, before the end.
pub proof fn lemma_projection_keeps_transactions(data: Seq<TxView>, end: Option<int>)
    requires
        project_txs(data, end) is Some,
        end matches Some(e) ==> e <= i64::MAX,
    ensures
        project_txs(data, end).unwrap().0.len() == data.len(),
        forall|i: int|
            0 <= i < data.len() ==> same_but_cleared(
                data[i],
                #[trigger] project_txs(data, end).unwrap().0[i],
            ),
        forall|k: int|
            0 <= k < project_txs(data, end).unwrap().1.len() ==> copy_of_repeating(
                data,
                end,
                #[trigger] project_txs(data, end).unwrap().1[k],
            ),
    decreases data.len(),
{
    if data.len() > 0 {
        let init = data.drop_last();
        lemma_projection_keeps_transactions(init, end);
        let p = project_txs(init, end).unwrap();
        let t = data.last();
        let q = project_txs(data, end).unwrap();
        assert forall|i: int| 0 <= i < init.len() implies data[i] == init[i] by {}
        if t.repeats_monthly {
            let e = end.unwrap();
            let dates = projected_dates(t.date as int, e).unwrap();
            lemma_projected_dates_ordered(t.date as int, e);
            let copies = dates.map_values(|d: int| copy_dated(t, d));
            let added = p.1.add(copies);
            assert(q.1 == mark_last(added));
            assert forall|k: int| 0 <= k < q.1.len() implies copy_of_repeating(data, end, #[trigger] q.1[k]) by {
                assert(q.1[k].amount == added[k].amount && q.1[k].comment == added[k].comment
                    && q.1[k].date == added[k].date);
                if k < p.1.len() {
                    assert(added[k] == p.1[k]);
                    assert(copy_of_repeating(init, end, p.1[k]));
                    let i = choose|i: int|
                        0 <= i < init.len() && #[trigger] init[i].repeats_monthly && end is Some
                            && init[i].amount == p.1[k].amount && init[i].comment == p.1[k].comment
                            && init[i].date < p.1[k].date < end.unwrap();
                    assert(data[i] == init[i]);
                } else {
                    let j = k - p.1.len();
                    assert(added[k] == copies[j]);
                    assert(copies[j] == copy_dated(t, dates[j]));
                    assert(t.date < dates[j] < e);
                    assert((dates[j] as i64) as int == dates[j]);
                    assert(data[data.len() - 1] == t);
                    assert(data[data.len() - 1].repeats_monthly);
                }
            }
        } else {
            assert(q.1 == p.1);
            assert forall|k: int| 0 <= k < q.1.len() implies copy_of_repeating(data, end, #[trigger] q.1[k]) by {
                assert(copy_of_repeating(init, end, p.1[k]));
                let i = choose|i: int|
                    0 <= i < init.len() && #[trigger] init[i].repeats_monthly && end is Some
                        && init[i].amount == p.1[k].amount && init[i].comment == p.1[k].comment
                        && init[i].date < p.1[k].date < end.unwrap();
                assert(data[i] == init[i]);
            }
        }
    }
}

} // verus!
