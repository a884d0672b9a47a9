//! Unit tests of the ring buffer, the validated parts, and the account.

use rinha::account::{Account, HISTORY_CAPACITY};
use rinha::api::{parse_kind, ApiError};
use rinha::history::RingBuffer;
use rinha::table::AccountTable;
use rinha::transaction::{Description, Transaction, TransactionKind};

fn desc(s: &str) -> Description {
    Description::try_from(s.to_string()).unwrap()
}

fn tx(value: i64, kind: TransactionKind, d: &str) -> Transaction {
    Transaction::new(value, kind, desc(d), "2024-01-01T00:00:00Z".to_string()).unwrap()
}

#[test]
fn buffer_length_is_pushes_capped_at_capacity() {
    let mut buf: RingBuffer<u64> = RingBuffer::new(3);
    assert_eq!(buf.len(), 0);
    for k in 0..7u64 {
        buf.push(k);
        let expected = if k + 1 < 3 { k + 1 } else { 3 };
        assert_eq!(buf.len() as u64, expected);
        assert_eq!(*buf.get(0), k);
    }
    assert_eq!(*buf.get(0), 6);
    assert_eq!(*buf.get(1), 5);
    assert_eq!(*buf.get(2), 4);
}

#[test]
fn buffer_default_has_the_account_capacity() {
    let buf: RingBuffer<Transaction> = Default::default();
    assert_eq!(buf.capacity(), HISTORY_CAPACITY);
    assert_eq!(buf.len(), 0);
}

#[test]
fn description_length_bounds() {
    assert!(Description::try_from("x".to_string()).is_ok());
    assert!(Description::try_from("abcdefghij".to_string()).is_ok());
    assert_eq!(
        Description::try_from(String::new()).unwrap_err(),
        ApiError::InvalidInput
    );
    assert_eq!(
        Description::try_from("abcdefghijk".to_string()).unwrap_err(),
        ApiError::InvalidInput
    );
}

#[test]
fn description_counts_code_units_not_characters() {
    // five two-byte characters: ten code units, accepted
    assert!(Description::try_from("\u{e1}".repeat(5)).is_ok());
    // six two-byte characters: twelve code units, refused
    assert!(Description::try_from("\u{e1}".repeat(6)).is_err());
}

#[test]
fn kind_parsing() {
    assert_eq!(parse_kind("C"), Some(TransactionKind::Credit));
    assert_eq!(parse_kind("D"), Some(TransactionKind::Debit));
    assert_eq!(parse_kind("X"), None);
    assert_eq!(parse_kind(""), None);
    assert_eq!(parse_kind("CD"), None);
}

#[test]
fn negative_amount_is_refused_at_construction() {
    let r = Transaction::new(
        -5,
        TransactionKind::Credit,
        desc("x"),
        "2024-01-01T00:00:00Z".to_string(),
    );
    assert_eq!(r.unwrap_err(), ApiError::InvalidInput);
}

#[test]
fn credit_and_debit_move_the_balance_by_their_value() {
    let mut account = Account::with_limit(1000);
    assert!(account.transact(tx(700, TransactionKind::Credit, "in")).is_ok());
    assert_eq!(account.balance(), 700);
    assert!(account.transact(tx(1500, TransactionKind::Debit, "out")).is_ok());
    assert_eq!(account.balance(), -800);
    assert_eq!(account.limit(), 1000);
}

#[test]
fn rejected_debit_leaves_balance_and_history_alone() {
    let mut account = Account::with_limit(100);
    assert!(account.transact(tx(50, TransactionKind::Credit, "in")).is_ok());
    let r = account.transact(tx(151, TransactionKind::Debit, "out"));
    assert_eq!(r.unwrap_err(), ApiError::InsufficientLimit);
    let (balance, limit, history) = account.snapshot();
    assert_eq!(balance, 50);
    assert_eq!(limit, 100);
    assert_eq!(history.len(), 1);
    assert_eq!(history[0].value(), 50);
}

#[test]
fn debit_to_exactly_minus_limit_is_accepted() {
    let mut account = Account::with_limit(100);
    assert!(account.transact(tx(100, TransactionKind::Debit, "out")).is_ok());
    assert_eq!(account.balance(), -100);
}

#[test]
fn overflowing_credit_is_rejected_not_wrapped() {
    let mut account = Account::with_limit(0);
    assert!(account.transact(tx(i64::MAX, TransactionKind::Credit, "big")).is_ok());
    assert_eq!(account.balance(), i64::MAX);
    let r = account.transact(tx(1, TransactionKind::Credit, "one"));
    assert_eq!(r.unwrap_err(), ApiError::InsufficientLimit);
    assert_eq!(account.balance(), i64::MAX);
}

#[test]
fn snapshot_is_newest_first() {
    let mut account = Account::with_limit(0);
    for k in 1..=4i64 {
        assert!(account.transact(tx(k, TransactionKind::Credit, "in")).is_ok());
    }
    let (balance, _, history) = account.snapshot();
    assert_eq!(balance, 10);
    let values: Vec<i64> = history.iter().map(|t| t.value()).collect();
    assert_eq!(values, vec![4, 3, 2, 1]);
}

#[test]
fn default_account_has_zero_limit_and_balance() {
    let mut account: Account = Default::default();
    assert_eq!(account.balance(), 0);
    assert_eq!(account.limit(), 0);
    let r = account.transact(tx(1, TransactionKind::Debit, "out"));
    assert_eq!(r.unwrap_err(), ApiError::InsufficientLimit);
}

#[test]
fn seeded_roster_has_the_five_deployment_limits() {
    let table = AccountTable::seeded();
    let expected = [
        (1u8, 100000i64),
        (2, 80000),
        (3, 1000000),
        (4, 10000000),
        (5, 500000),
    ];
    for (id, limit) in expected {
        let st = table.get_statement(id).unwrap();
        assert_eq!(st.limit, limit);
        assert_eq!(st.balance, 0);
        assert!(st.transactions.is_empty());
    }
    assert!(table.get_statement(6).is_err());
}

#[test]
fn from_seed_builds_the_given_roster() {
    let seed = vec![(7u8, 500i64), (9u8, 0i64)];
    let mut table = AccountTable::from_seed(&seed);
    let st = table.get_statement(7).unwrap();
    assert_eq!(st.limit, 500);
    let r = table.post_transaction(9, tx(1, TransactionKind::Debit, "out"));
    assert_eq!(r.unwrap_err(), ApiError::InsufficientLimit);
    let r = table.post_transaction(7, tx(30, TransactionKind::Debit, "out"));
    assert_eq!(r.unwrap(), (-30, 500));
}

#[test]
fn transaction_keeps_its_parts() {
    let t = tx(12, TransactionKind::Debit, "coffee");
    assert_eq!(t.value(), 12);
    assert!(matches!(t.kind(), TransactionKind::Debit));
    assert_eq!(t.description().as_str(), "coffee");
    assert_eq!(t.created_at(), "2024-01-01T00:00:00Z");
    let c = t.clone();
    assert_eq!(c.value(), 12);
    assert_eq!(c.description().as_str(), "coffee");
}

#[test]
fn balance_plus_limit_stays_non_negative_after_each_transaction() {
    let mut account = Account::with_limit(500);
    let steps = [
        (200i64, TransactionKind::Debit),
        (100, TransactionKind::Credit),
        (400, TransactionKind::Debit),
        (900, TransactionKind::Debit),
        (1000, TransactionKind::Credit),
    ];
    for (value, kind) in steps {
        let _ = account.transact(tx(value, kind, "step"));
        assert!(account.balance() + account.limit() >= 0);
    }
}

#[test]
fn final_balance_is_the_sum_of_accepted_deltas() {
    let mut account = Account::with_limit(100);
    let steps = [
        (50i64, TransactionKind::Credit),
        (120, TransactionKind::Debit),
        (300, TransactionKind::Debit),  // refused: would reach -370
        (30, TransactionKind::Credit),
    ];
    let mut sum_of_accepted: i64 = 0;
    for (value, kind) in steps {
        if account.transact(tx(value, kind, "step")).is_ok() {
            sum_of_accepted += match kind {
                TransactionKind::Credit => value,
                TransactionKind::Debit => -value,
            };
        }
    }
    assert_eq!(sum_of_accepted, -40);
    assert_eq!(account.balance(), sum_of_accepted);
    let (_, _, history) = account.snapshot();
    assert_eq!(history.len(), 3);
}
