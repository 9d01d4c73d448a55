use bank_ledger::{Bank, TransactionError};

#[test]
fn test_create_account() {
    let mut bank = Bank::new();
    bank.create_account("Alice".to_string(), 100);
    assert_eq!(bank.balance("Alice").unwrap(), 100);
}

#[test]
fn test_transaction_success() {
    let mut bank = Bank::new();
    bank.create_account("Alice".to_string(), 100);
    bank.create_account("Bob".to_string(), 50);
    assert!(bank.transaction("Alice", "Bob", 20).is_ok());
    assert_eq!(bank.balance("Alice").unwrap(), 80);
    assert_eq!(bank.balance("Bob").unwrap(), 70);
}

#[test]
fn test_transaction_insufficient_funds() {
    let mut bank = Bank::new();
    bank.create_account("Alice".to_string(), 100);
    bank.create_account("Bob".to_string(), 50);
    assert!(bank.transaction("Alice", "Bob", 120).is_err());
    assert_eq!(bank.balance("Alice").unwrap(), 100);
    assert_eq!(bank.balance("Bob").unwrap(), 50);
}

#[test]
fn test_transaction_account_not_found() {
    let mut bank = Bank::new();
    bank.create_account("Alice".to_string(), 100);
    assert!(bank.transaction("Alice", "Charlie", 20).is_err());
    assert_eq!(bank.balance("Alice").unwrap(), 100);
}

fn alice_and_bob() -> Bank {
    let mut bank = Bank::new();
    bank.create_account("Alice".to_string(), 100);
    bank.create_account("Bob".to_string(), 50);
    bank
}

#[test]
fn new_ledger_has_no_accounts() {
    let bank = Bank::new();
    assert_eq!(bank.balance("Alice"), None);
    assert_eq!(bank.balance(""), None);
}

#[test]
fn created_account_has_its_balance() {
    let mut bank = Bank::new();
    bank.create_account("Dana".to_string(), 7);
    assert_eq!(bank.balance("Dana"), Some(7));
    bank.create_account("".to_string(), 0);
    assert_eq!(bank.balance(""), Some(0));
    bank.create_account("Erin".to_string(), -25);
    assert_eq!(bank.balance("Erin"), Some(-25));
    assert_eq!(bank.balance("Dana"), Some(7));
}

#[test]
fn creating_again_replaces_the_balance() {
    let mut bank = alice_and_bob();
    bank.create_account("Alice".to_string(), 3);
    assert_eq!(bank.balance("Alice"), Some(3));
    assert_eq!(bank.balance("Bob"), Some(50));
}

#[test]
fn balance_of_missing_account_is_none() {
    let bank = alice_and_bob();
    assert_eq!(bank.balance("Charlie"), None);
    assert_eq!(bank.balance("alice"), None);
    assert_eq!(bank.balance("Alice "), None);
}

#[test]
fn transfer_moves_the_amount() {
    let mut bank = alice_and_bob();
    assert_eq!(bank.transaction("Alice", "Bob", 20), Ok(()));
    assert_eq!(bank.balance("Alice"), Some(80));
    assert_eq!(bank.balance("Bob"), Some(70));
    assert_eq!(bank.balance("Alice").unwrap() + bank.balance("Bob").unwrap(), 150);
}

#[test]
fn transfer_of_whole_balance_succeeds() {
    let mut bank = alice_and_bob();
    assert_eq!(bank.transaction("Alice", "Bob", 100), Ok(()));
    assert_eq!(bank.balance("Alice"), Some(0));
    assert_eq!(bank.balance("Bob"), Some(150));
}

#[test]
fn transfer_keeps_other_accounts() {
    let mut bank = alice_and_bob();
    bank.create_account("Carol".to_string(), 9);
    assert_eq!(bank.transaction("Bob", "Alice", 50), Ok(()));
    assert_eq!(bank.balance("Carol"), Some(9));
    assert_eq!(bank.balance("Alice"), Some(150));
    assert_eq!(bank.balance("Bob"), Some(0));
}

#[test]
fn overdraw_fails_with_insufficient_funds() {
    let mut bank = alice_and_bob();
    assert_eq!(
        bank.transaction("Alice", "Bob", 120),
        Err(TransactionError::InsufficientFunds)
    );
    assert_eq!(bank.balance("Alice"), Some(100));
    assert_eq!(bank.balance("Bob"), Some(50));
    assert_eq!(
        bank.transaction("Alice", "Bob", 101),
        Err(TransactionError::InsufficientFunds)
    );
    assert_eq!(bank.balance("Alice"), Some(100));
}

#[test]
fn missing_destination_fails_with_account_not_found() {
    let mut bank = Bank::new();
    bank.create_account("Alice".to_string(), 100);
    assert_eq!(
        bank.transaction("Alice", "Charlie", 20),
        Err(TransactionError::AccountNotFound)
    );
    assert_eq!(bank.balance("Alice"), Some(100));
    assert_eq!(bank.balance("Charlie"), None);
}

#[test]
fn missing_source_fails_with_account_not_found() {
    let mut bank = alice_and_bob();
    assert_eq!(
        bank.transaction("Charlie", "Bob", 20),
        Err(TransactionError::AccountNotFound)
    );
    assert_eq!(bank.balance("Bob"), Some(50));
    assert_eq!(bank.balance("Charlie"), None);
}

#[test]
fn missing_account_is_reported_before_funds() {
    let mut bank = alice_and_bob();
    assert_eq!(
        bank.transaction("Alice", "Charlie", 1000),
        Err(TransactionError::AccountNotFound)
    );
    assert_eq!(
        bank.transaction("Charlie", "Dana", 1),
        Err(TransactionError::AccountNotFound)
    );
}

#[test]
fn self_transfer_changes_nothing() {
    let mut bank = alice_and_bob();
    assert_eq!(bank.transaction("Alice", "Alice", 30), Ok(()));
    assert_eq!(bank.balance("Alice"), Some(100));
    assert_eq!(
        bank.transaction("Alice", "Alice", 130),
        Err(TransactionError::InsufficientFunds)
    );
    assert_eq!(bank.balance("Alice"), Some(100));
    assert_eq!(
        bank.transaction("Zed", "Zed", 0),
        Err(TransactionError::AccountNotFound)
    );
}

#[test]
fn transfer_of_nothing_changes_nothing() {
    let mut bank = alice_and_bob();
    assert_eq!(bank.transaction("Alice", "Bob", 0), Ok(()));
    assert_eq!(bank.balance("Alice"), Some(100));
    assert_eq!(bank.balance("Bob"), Some(50));
}

#[test]
fn transfer_of_nothing_from_debt_is_refused() {
    let mut bank = Bank::new();
    bank.create_account("Owe".to_string(), -5);
    bank.create_account("Bob".to_string(), 50);
    assert_eq!(
        bank.transaction("Owe", "Bob", 0),
        Err(TransactionError::InsufficientFunds)
    );
    assert_eq!(bank.balance("Owe"), Some(-5));
}

#[test]
fn negative_amount_moves_backwards() {
    let mut bank = alice_and_bob();
    assert_eq!(bank.transaction("Alice", "Bob", -20), Ok(()));
    assert_eq!(bank.balance("Alice"), Some(120));
    assert_eq!(bank.balance("Bob"), Some(30));
    assert_eq!(bank.transaction("Alice", "Bob", -40), Ok(()));
    assert_eq!(bank.balance("Alice"), Some(160));
    assert_eq!(bank.balance("Bob"), Some(-10));
}

#[test]
fn transaction_fits_tells_what_can_be_held() {
    let mut bank = Bank::new();
    bank.create_account("Rich".to_string(), i64::MAX);
    bank.create_account("One".to_string(), 1);
    bank.create_account("Poor".to_string(), i64::MIN);
    assert!(!bank.transaction_fits("Rich", "One", i64::MAX));
    assert!(bank.transaction_fits("Rich", "One", i64::MAX - 1));
    assert!(!bank.transaction_fits("Rich", "One", -1));
    assert!(!bank.transaction_fits("One", "Poor", -1));
    assert!(bank.transaction_fits("One", "Poor", 1));
    // Nothing is written by these, so they fit.
    assert!(bank.transaction_fits("Rich", "Rich", -1));
    assert!(bank.transaction_fits("Rich", "Nobody", i64::MAX));
    assert!(bank.transaction_fits("One", "Rich", 2));
    assert_eq!(bank.transaction("Rich", "One", i64::MAX - 1), Ok(()));
    assert_eq!(bank.balance("Rich"), Some(1));
    assert_eq!(bank.balance("One"), Some(i64::MAX));
}

#[test]
fn names_are_compared_exactly() {
    let mut bank = Bank::new();
    bank.create_account("Zoë".to_string(), 10);
    bank.create_account("Zoe".to_string(), 20);
    assert_eq!(bank.transaction("Zoë", "Zoe", 10), Ok(()));
    assert_eq!(bank.balance("Zoë"), Some(0));
    assert_eq!(bank.balance("Zoe"), Some(30));
    assert_eq!(bank.transaction("Zoe", "Zoe", 5), Ok(()));
    assert_eq!(bank.balance("Zoe"), Some(30));
}

#[test]
fn errors_have_their_words() {
    assert_eq!(TransactionError::InsufficientFunds.message(), "Insufficient funds");
    assert_eq!(TransactionError::AccountNotFound.message(), "Account not found");
}
