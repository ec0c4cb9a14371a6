use ledger::accounts::{dates_after_first, Account, Accounts, DateRange, Message};
use ledger::amount::Amount;
use ledger::ledger::{Ledger, Transaction};

const JAN_15: i64 = 1705276800;
const JAN_20: i64 = 1705708800;
const JAN_31: i64 = 1706659200;
const FEB_15: i64 = 1707955200;
const FEB_29: i64 = 1709164800;
const MAR_15: i64 = 1710460800;
const APR_15: i64 = 1713139200;
const APR_20: i64 = 1713571200;
const MONTH_DAY: i64 = 86400;

fn dec(mantissa: i128, scale: u32) -> Amount {
    Amount { mantissa, scale }
}

fn tx(m: i128, s: u32, comment: &str, date: i64, repeats: bool) -> Transaction {
    Transaction { amount: dec(m, s), comment: comment.to_string(), date, repeats_monthly: repeats }
}

fn account(name: &str, data: Vec<Transaction>) -> Account {
    let mut a = Account::new(name.to_string());
    a.ledger.data = data;
    a
}

fn accounts(list: Vec<Account>, checked_up_to: i64) -> Accounts {
    Accounts { name: String::new(), selected: None, accounts: list, checked_up_to }
}

#[test]
fn ledger_sum_adds_all_amounts() {
    let mut l = Ledger::new();
    l.data = vec![tx(1050, 2, "a", JAN_15, false), tx(-3, 0, "b", JAN_20, false), tx(25, 1, "c", JAN_31, false)];
    assert_eq!(l.sum(), dec(1000, 2));
    assert_eq!(Ledger::new().sum(), dec(0, 0));
}

#[test]
fn ledger_sum_overflow_is_none() {
    let mut l = Ledger::new();
    l.data = vec![tx(79228162514264337593543950335, 0, "a", 0, false), tx(1, 0, "b", 0, false)];
    assert_eq!(l.checked_sum(), None);
}

#[test]
fn new_account_has_empty_ledger() {
    let a = Account::new("cash".to_string());
    assert_eq!(a.name, "cash");
    assert!(a.ledger.data.is_empty());
    assert_eq!(a.ledger.tx.amount, dec(0, 0));
    assert_eq!(a.ledger.tx.comment, "");
    assert!(!a.ledger.tx.repeats_monthly);
    assert_eq!(a.ledger.amount, "");
}

#[test]
fn date_range_steps_one_month() {
    let mut r = DateRange(JAN_31, FEB_29 + 1);
    assert_eq!(r.next(), Some(JAN_31));
    assert_eq!(r.0, FEB_29);
    assert_eq!(r.next(), Some(FEB_29));
    assert_eq!(r.0, 1711670400); // 2024-03-29, the day kept from February
    assert_eq!(r.next(), None);
    assert_eq!(r.1, FEB_29 + 1);
}

#[test]
fn date_range_fails_past_chrono_range() {
    let mut r = DateRange(i64::MAX, i64::MAX);
    assert_eq!(r.try_next(), None);
    assert_eq!(r.0, i64::MAX);
}

#[test]
fn dates_after_first_skip_the_start() {
    assert_eq!(dates_after_first(JAN_15, APR_20), Some(vec![FEB_15, MAR_15, APR_15]));
    assert_eq!(dates_after_first(JAN_15, JAN_20), Some(vec![]));
    assert_eq!(dates_after_first(JAN_15, JAN_15), Some(vec![]));
    assert_eq!(dates_after_first(i64::MAX - 1, i64::MAX), None);
}

#[test]
fn projection_copies_repeating_transactions() {
    let a = account(
        "rent",
        vec![tx(-1000, 0, "rent", JAN_15, true), tx(5, 0, "gift", JAN_20, false)],
    );
    let all = accounts(vec![a], JAN_20);
    let p = all.project_months(3);
    let data = &p.accounts[0].ledger.data;
    assert_eq!(data.len(), 5);
    assert_eq!(data[0].date, JAN_15);
    assert!(!data[0].repeats_monthly);
    assert_eq!(data[1].comment, "gift");
    assert_eq!(data[2].date, FEB_15);
    assert_eq!(data[3].date, MAR_15);
    assert_eq!(data[4].date, APR_15);
    assert_eq!(data[4].amount, dec(-1000, 0));
    assert!(!data[2].repeats_monthly && !data[3].repeats_monthly);
    assert!(data[4].repeats_monthly);
    // The projection leaves the accounts themselves as they were.
    assert!(all.accounts[0].ledger.data[0].repeats_monthly);
    assert_eq!(all.accounts[0].ledger.data.len(), 2);
}

#[test]
fn projection_without_later_month_keeps_flag() {
    let a = account("rent", vec![tx(-1000, 0, "rent", JAN_15, true)]);
    let p = accounts(vec![a], JAN_15 - 40 * MONTH_DAY).project_months(1);
    assert_eq!(p.accounts[0].ledger.data.len(), 1);
    assert!(p.accounts[0].ledger.data[0].repeats_monthly);
}

#[test]
fn projection_fails_when_end_out_of_range() {
    let a = account("rent", vec![tx(-1000, 0, "rent", JAN_15, true)]);
    assert!(accounts(vec![a], i64::MAX).checked_project_months(1).is_none());
    let b = account("plain", vec![tx(1, 0, "x", JAN_15, false)]);
    assert!(accounts(vec![b], i64::MAX).checked_project_months(1).is_some());
}

#[test]
fn update_selects_and_goes_back() {
    let mut all = accounts(vec![account("a", vec![]), account("b", vec![])], 0);
    all.update(Message::SelectAccount(1));
    assert_eq!(all.selected, Some(1));
    all.update(Message::Back);
    assert_eq!(all.selected, None);
}

#[test]
fn update_adds_and_deletes_accounts() {
    let mut all = accounts(vec![account("a", vec![])], 0);
    all.update(Message::ChangeAccountName("savings".to_string()));
    assert_eq!(all.name, "savings");
    all.update(Message::NewAccount);
    assert_eq!(all.name, "");
    assert_eq!(all.accounts.len(), 2);
    assert_eq!(all.accounts[1].name, "savings");
    all.update(Message::DeleteAccount(0));
    assert_eq!(all.accounts.len(), 1);
    assert_eq!(all.accounts[0].name, "savings");
}

#[test]
fn update_enters_amount_text() {
    let mut all = accounts(vec![account("a", vec![])], 0);
    all.update(Message::SelectAccount(0));
    all.update(Message::ChangeTx("12.5".to_string()));
    assert_eq!(all.accounts[0].ledger.tx.amount, dec(125, 1));
    assert_eq!(all.accounts[0].ledger.amount, "12.5");
    all.update(Message::ChangeTx("3.".to_string()));
    assert_eq!(all.accounts[0].ledger.amount, "12.5.");
    assert_eq!(all.accounts[0].ledger.tx.amount, dec(125, 1));
    all.update(Message::ChangeTx("abc".to_string()));
    assert_eq!(all.accounts[0].ledger.amount, "");
    assert_eq!(all.accounts[0].ledger.tx.amount, dec(125, 1));
}

#[test]
fn update_submits_transaction() {
    let mut all = accounts(vec![account("a", vec![]), account("b", vec![])], 0);
    all.update(Message::SelectAccount(1));
    all.update(Message::ChangeTx("7".to_string()));
    all.update(Message::ChangeComment("lunch".to_string()));
    all.update(Message::SubmitTx);
    let l = &all.accounts[1].ledger;
    assert_eq!(l.data.len(), 1);
    assert_eq!(l.data[0].amount, dec(7, 0));
    assert_eq!(l.data[0].comment, "lunch");
    assert_eq!(l.tx.amount, dec(0, 0));
    assert_eq!(l.tx.comment, "");
    assert_eq!(l.amount, "");
    assert!(all.accounts[0].ledger.data.is_empty());
}

#[test]
fn column_widths_fit_names_and_balances() {
    let all = accounts(
        vec![
            account("checking account", vec![tx(123456789, 2, "pay", JAN_15, false)]),
            account("é", vec![]),
        ],
        0,
    );
    assert_eq!(all.name_balance_len(), (16, 12));
    assert_eq!(accounts(vec![], 0).name_balance_len(), (9, 9));
}

#[test]
fn listing_total_starts_at_two_decimals() {
    let all = accounts(
        vec![account("a", vec![tx(5, 0, "x", 0, false)]), account("b", vec![tx(25, 1, "y", 0, false)])],
        0,
    );
    // Adding to the zero the listing starts from gives the balance unchanged.
    assert_eq!(all.total(), dec(75, 1));
    assert_eq!(accounts(vec![], 0).total(), dec(0, 2));
}
