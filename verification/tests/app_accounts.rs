use chrono::{Datelike, TimeZone, Utc};
use ledger::amount::Amount;
use ledger::app::account::transaction::{sort_txs_by_date, Transaction};
use ledger::app::account::{Account, Period};
use ledger::app::accounts::Accounts;
use ledger::app::money::Currency;

const DEC_05_2023: i64 = 1701734400;
const JAN_15: i64 = 1705276800;
const JAN_20: i64 = 1705708800;
const FEB_01: i64 = 1706745600;
const FEB_10: i64 = 1707523200;
const MAR_01: i64 = 1709251200;
const MAR_10: i64 = 1710028800;

fn dec(mantissa: i128, scale: u32) -> Amount {
    Amount { mantissa, scale }
}

fn tx(m: i128, comment: &str, date: i64) -> Transaction {
    Transaction { amount: dec(m, 2), balance: dec(0, 0), comment: comment.to_string(), date }
}

fn account(name: &str, txs: Vec<Transaction>, monthly: Vec<Transaction>) -> Account {
    let mut a = Account::new(name.to_string(), Currency::Usd);
    a.txs_1st = txs;
    a.txs_monthly = monthly;
    a
}

fn sample() -> Accounts {
    let mut all = Accounts::new();
    all.inner.push(account(
        "checking",
        vec![tx(10000, "salary", FEB_10), tx(-2500, "food", JAN_15)],
        vec![tx(-1000, "rent", 0)],
    ));
    all.inner.push(account("savings", vec![tx(5000, "interest", JAN_15)], vec![tx(200, "save", 0)]));
    all
}

#[test]
fn new_accounts_are_empty() {
    let all = Accounts::new();
    assert_eq!(all.checked_up_to, 0);
    assert_eq!(all.total_crypto, dec(0, 0));
    assert_eq!(all.total_metals, dec(0, 0));
    assert!(all.inner.is_empty());
    assert_eq!(all.balance(), dec(0, 0));
}

#[test]
fn account_balance_and_monthly_sum() {
    let all = sample();
    assert_eq!(all.inner[0].balance(), dec(7500, 2));
    assert_eq!(all.inner[0].sum_monthly(), dec(-1000, 2));
    assert_eq!(all.balance(), dec(12500, 2));
}

#[test]
fn total_for_months_multiplies_monthly_sums() {
    let all = sample();
    assert_eq!(all.total_for_months_usd(3), dec(-2400, 2));
    assert_eq!(all.total_for_months_usd(0), dec(0, 0));
}

#[test]
fn projected_balance() {
    let all = sample();
    assert_eq!(all.project_months(None), dec(12500, 2));
    assert_eq!(all.project_months(Some(3)), dec(10100, 2));
}

#[test]
fn balance_overflow_is_reported() {
    let mut all = Accounts::new();
    all.inner.push(account("a", vec![Transaction {
        amount: dec(79228162514264337593543950335, 0),
        balance: dec(0, 0),
        comment: String::new(),
        date: 0,
    }], vec![]));
    all.inner.push(account("b", vec![Transaction { amount: dec(1, 0), balance: dec(0, 0), comment: String::new(), date: 0 }], vec![]));
    assert_eq!(all.checked_balance(), None);
    assert_eq!(all.checked_project_months(None), None);
}

#[test]
fn sums_over_periods() {
    let all = sample();
    assert_eq!(all.inner[0].sum_current_month(FEB_10), Some(dec(10000, 2)));
    assert_eq!(all.inner[0].sum_last_month(FEB_10), Some(dec(-2500, 2)));
    assert_eq!(all.inner[0].sum_current_year(FEB_10), Some(dec(7500, 2)));
    assert_eq!(all.inner[0].sum_last_year(FEB_10), Some(dec(0, 0)));
    assert_eq!(all.checked_total_in_period(FEB_10, Period::LastMonth), Some(dec(2500, 2)));
    assert_eq!(all.checked_total_in_period(JAN_20, Period::CurrentMonth), Some(dec(2500, 2)));
}

#[test]
fn last_month_of_january_is_december() {
    let a = account("a", vec![tx(100, "old", DEC_05_2023), tx(200, "new", JAN_15)], vec![]);
    assert_eq!(a.sum_last_month(JAN_20), Some(dec(100, 2)));
    assert_eq!(a.sum_last_year(JAN_20), Some(dec(100, 2)));
}

#[test]
fn totals_from_the_clock_are_some() {
    let all = sample();
    assert!(all.total_for_current_month_usd().is_some());
    assert!(all.total_for_last_month_usd().is_some());
    assert!(all.total_for_current_year_usd().is_some());
    assert!(all.total_for_last_year_usd().is_some());
}

#[test]
fn sorting_is_stable_by_date() {
    let mut v = vec![tx(1, "c", FEB_10), tx(2, "a", JAN_15), tx(3, "d", FEB_10), tx(4, "b", JAN_15)];
    sort_txs_by_date(&mut v);
    let comments: Vec<&str> = v.iter().map(|t| t.comment.as_str()).collect();
    assert_eq!(comments, vec!["a", "b", "c", "d"]);
}

#[test]
fn graph_account_orders_all_transactions() {
    let g = sample().all_accounts_txs();
    assert_eq!(g.name, "graph data");
    assert_eq!(g.currency, Currency::Usd);
    assert!(g.txs_monthly.is_empty());
    let comments: Vec<&str> = g.txs_1st.iter().map(|t| t.comment.as_str()).collect();
    assert_eq!(comments, vec!["food", "interest", "salary"]);
    let balances: Vec<Amount> = g.txs_1st.iter().map(|t| t.balance).collect();
    assert_eq!(balances, vec![dec(-2500, 2), dec(2500, 2), dec(12500, 2)]);
}

#[test]
fn monthly_check_books_once_per_month() {
    let mut all = sample();
    all.checked_up_to = FEB_10;
    assert!(all.check_monthly_at(MAR_10, MAR_01));
    assert_eq!(all.checked_up_to, MAR_10);
    let checking = &all.inner[0].txs_1st;
    assert_eq!(checking.len(), 3);
    assert_eq!(checking[2].comment, "rent");
    assert_eq!(checking[2].date, MAR_01);
    assert_eq!(checking[2].amount, dec(-1000, 2));
    assert_eq!(checking[2].balance, dec(6500, 2));
    assert_eq!(all.inner[1].txs_1st[1].balance, dec(5200, 2));
    // A second check at the same instant books nothing.
    assert!(all.check_monthly_at(MAR_10, MAR_01));
    assert_eq!(all.inner[0].txs_1st.len(), 3);
}

#[test]
fn monthly_check_before_month_start_books_nothing() {
    let mut all = sample();
    all.checked_up_to = MAR_10;
    assert!(all.check_monthly_at(MAR_10 + 60, MAR_01));
    assert_eq!(all.inner[0].txs_1st.len(), 2);
    assert_eq!(all.checked_up_to, MAR_10 + 60);
    let mut later = sample();
    later.checked_up_to = JAN_20;
    assert!(later.check_monthly_at(FEB_01, FEB_01));
    assert_eq!(later.inner[0].txs_1st.len(), 2);
}

#[test]
fn monthly_check_sorts_booked_transactions() {
    let mut all = Accounts::new();
    all.inner.push(account("a", vec![tx(100, "late", MAR_10)], vec![tx(5, "fee", 0)]));
    assert!(all.check_monthly_at(MAR_10 + 1, MAR_01));
    let comments: Vec<&str> = all.inner[0].txs_1st.iter().map(|t| t.comment.as_str()).collect();
    assert_eq!(comments, vec!["fee", "late"]);
}

#[test]
fn monthly_check_from_clock() {
    let mut all = sample();
    assert!(all.check_monthly());
    assert!(all.checked_up_to > MAR_10);
}

#[test]
fn index_gives_account() {
    let mut all = sample();
    assert_eq!(all.index(1).name, "savings");
    all.index_mut(0).name = "current".to_string();
    assert_eq!(all.inner[0].name, "current");
}

#[test]
fn monthly_check_from_clock_books_on_first_of_month() {
    let mut all = sample();
    all.checked_up_to = 0;
    let before = Utc::now();
    assert!(all.check_monthly());
    let first = Utc
        .with_ymd_and_hms(before.year(), before.month(), 1, 0, 0, 0)
        .unwrap()
        .timestamp();
    let booked: Vec<i64> = all.inner[0]
        .txs_1st
        .iter()
        .filter(|t| t.comment == "rent")
        .map(|t| t.date)
        .collect();
    assert_eq!(booked, vec![first]);
}

#[test]
fn months_split_at_midnight_utc() {
    let a = account(
        "edges",
        vec![tx(100, "feb 29, last second", MAR_01 - 1), tx(200, "mar 1, first second", MAR_01), tx(400, "1969", -1)],
        vec![],
    );
    assert_eq!(a.sum_current_month(MAR_01), Some(dec(200, 2)));
    assert_eq!(a.sum_last_month(MAR_01), Some(dec(100, 2)));
    assert_eq!(a.sum_last_month(0), Some(dec(400, 2)));
    assert_eq!(a.sum_last_year(0), Some(dec(400, 2)));
    let far = account("far", vec![tx(700, "the calendar's last second", 8210266876799)], vec![]);
    assert_eq!(far.sum_current_month(8210266876799 - 86399), Some(dec(700, 2)));
    assert_eq!(far.sum_current_year(8210266876799), Some(dec(700, 2)));
}
