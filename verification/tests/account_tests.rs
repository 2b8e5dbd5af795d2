use payments_engine::client::Client;
use payments_engine::error::Error;
use payments_engine::transaction::{Transaction, TransactionType};

fn tx(ty: TransactionType, id: u32, amount: Option<u64>) -> Transaction {
    Transaction {
        ty,
        client_id: 1,
        id,
        amount,
    }
}

fn conserved(client: &Client) -> bool {
    client.total as i128 == client.available() + client.get_held() as i128
}

#[test]
fn test_fresh_account_is_empty() {
    let client = Client::default();
    assert_eq!(client.total, 0);
    assert!(!client.locked);
    assert_eq!(client.get_held(), 0);
    assert_eq!(client.available(), 0);
}

#[test]
fn test_deposits_and_withdrawals_keep_all_funds_available() -> Result<(), Error> {
    let mut client = Client::default();
    client.process_tx(tx(TransactionType::Deposit, 1, Some(25000)), None)?;
    assert_eq!(client.get_held(), 0);
    assert_eq!(client.available(), 25000);
    assert_eq!(client.total, 25000);

    client.process_tx(tx(TransactionType::Withdrawal, 2, Some(5000)), None)?;
    assert_eq!(client.get_held(), 0);
    assert_eq!(client.available(), 20000);
    assert_eq!(client.total, 20000);

    client.process_tx(tx(TransactionType::Deposit, 3, Some(1)), None)?;
    assert_eq!(client.get_held(), 0);
    assert_eq!(client.available(), 20001);
    assert_eq!(client.total, 20001);
    Ok(())
}

#[test]
fn test_conservation_across_dispute_lifecycle() -> Result<(), Error> {
    let mut client = Client::default();
    let deposit = tx(TransactionType::Deposit, 1, Some(20000));
    client.process_tx(deposit.clone(), None)?;
    assert!(conserved(&client));

    client.process_tx(tx(TransactionType::Dispute, 1, None), Some(deposit))?;
    assert!(conserved(&client));

    let withdrawal = tx(TransactionType::Withdrawal, 2, Some(5000));
    assert_eq!(
        client.process_tx(withdrawal.clone(), None),
        Err(Error::InsufficientBalance)
    );
    assert!(conserved(&client));

    client.process_tx(tx(TransactionType::Resolve, 1, None), None)?;
    assert!(conserved(&client));

    client.process_tx(withdrawal.clone(), None)?;
    assert!(conserved(&client));

    client.process_tx(tx(TransactionType::Dispute, 2, None), Some(withdrawal))?;
    assert!(conserved(&client));

    client.process_tx(tx(TransactionType::Chargeback, 2, None), None)?;
    assert!(conserved(&client));
    Ok(())
}

#[test]
fn test_withdrawal_fails_only_on_available_funds() -> Result<(), Error> {
    let mut client = Client::default();
    let deposit = tx(TransactionType::Deposit, 1, Some(10000));
    client.process_tx(deposit.clone(), None)?;
    client.deposit(5000)?;
    client.process_tx(tx(TransactionType::Dispute, 1, None), Some(deposit))?;

    // total = 1.5, held = 1.0: the total alone would cover 1.2, the
    // available funds do not.
    assert_eq!(client.total, 15000);
    assert_eq!(client.get_held(), 10000);
    assert_eq!(client.withdraw(12000), Err(Error::InsufficientBalance));

    // exactly the available funds go through
    assert!(client.withdraw(5000).is_ok());
    assert_eq!(client.available(), 0);
    assert_eq!(client.withdraw(1), Err(Error::InsufficientBalance));
    Ok(())
}

#[test]
fn test_locked_account_refuses_deposit_and_withdrawal() {
    let mut client = Client::default();
    client.deposit(30000).unwrap();
    client.locked = true;

    assert_eq!(client.deposit(1000), Err(Error::AccountLocked));
    assert_eq!(client.withdraw(1000), Err(Error::AccountLocked));
    assert_eq!(
        client.process_tx(tx(TransactionType::Deposit, 7, Some(1000)), None),
        Err(Error::AccountLocked)
    );
    assert_eq!(
        client.process_tx(tx(TransactionType::Withdrawal, 8, Some(1000)), None),
        Err(Error::AccountLocked)
    );
    // even a record without an amount is refused for the lock first
    assert_eq!(
        client.process_tx(tx(TransactionType::Deposit, 9, None), None),
        Err(Error::AccountLocked)
    );

    assert_eq!(client.total, 30000);
    assert_eq!(client.get_held(), 0);
    assert!(client.locked);
}

#[test]
fn test_amount_missing_on_deposit_and_withdrawal() {
    let mut client = Client::default();
    assert_eq!(
        client.process_tx(tx(TransactionType::Deposit, 1, None), None),
        Err(Error::AmountMissing)
    );
    assert_eq!(
        client.process_tx(tx(TransactionType::Withdrawal, 2, None), None),
        Err(Error::AmountMissing)
    );
    // a dispute whose located original lacks its mandatory amount
    assert_eq!(
        client.process_tx(
            tx(TransactionType::Dispute, 3, None),
            Some(tx(TransactionType::Deposit, 3, None))
        ),
        Err(Error::AmountMissing)
    );
    assert_eq!(client.total, 0);
    assert_eq!(client.get_held(), 0);
}

#[test]
fn test_unresolvable_references_are_noops() -> Result<(), Error> {
    let mut client = Client::default();
    let deposit = tx(TransactionType::Deposit, 1, Some(10000));
    client.process_tx(deposit.clone(), None)?;

    // dispute whose original was not located
    client.process_tx(tx(TransactionType::Dispute, 5, None), None)?;
    // dispute whose original is not a deposit or withdrawal
    client.process_tx(
        tx(TransactionType::Dispute, 5, None),
        Some(tx(TransactionType::Dispute, 5, Some(4000))),
    )?;
    // resolve and chargeback of an id that is not under dispute
    client.process_tx(tx(TransactionType::Resolve, 5, None), None)?;
    client.process_tx(tx(TransactionType::Chargeback, 5, None), None)?;

    assert_eq!(client.total, 10000);
    assert_eq!(client.get_held(), 0);
    assert!(!client.locked);

    // disputing the same transaction twice holds the amount only once
    client.process_tx(tx(TransactionType::Dispute, 1, None), Some(deposit.clone()))?;
    client.process_tx(tx(TransactionType::Dispute, 1, None), Some(deposit))?;
    assert_eq!(client.total, 10000);
    assert_eq!(client.get_held(), 10000);
    Ok(())
}

#[test]
fn test_deposit_dispute_resolve_scenario() -> Result<(), Error> {
    let mut client = Client::default();
    let deposit = tx(TransactionType::Deposit, 1, Some(10000));
    client.process_tx(deposit.clone(), None)?;
    assert_eq!(client.total, 10000);
    assert_eq!(client.available(), 10000);
    assert_eq!(client.get_held(), 0);

    client.process_tx(tx(TransactionType::Dispute, 1, None), Some(deposit))?;
    assert_eq!(client.total, 10000);
    assert_eq!(client.get_held(), 10000);
    assert_eq!(client.available(), 0);

    assert_eq!(client.withdraw(10000), Err(Error::InsufficientBalance));

    client.process_tx(tx(TransactionType::Resolve, 1, None), None)?;
    assert_eq!(client.total, 10000);
    assert_eq!(client.get_held(), 0);
    assert_eq!(client.available(), 10000);

    assert!(client.withdraw(10000).is_ok());
    assert_eq!(client.total, 0);
    Ok(())
}

#[test]
fn test_deposit_dispute_chargeback_scenario() -> Result<(), Error> {
    let mut client = Client::default();
    let deposit = tx(TransactionType::Deposit, 1, Some(20000));
    client.process_tx(deposit.clone(), None)?;
    assert_eq!(client.total, 20000);

    client.process_tx(tx(TransactionType::Dispute, 1, None), Some(deposit))?;
    assert_eq!(client.get_held(), 20000);
    assert_eq!(client.available(), 0);

    client.process_tx(tx(TransactionType::Chargeback, 1, None), None)?;
    assert_eq!(client.total, 0);
    assert_eq!(client.get_held(), 0);
    assert!(client.locked);

    assert_eq!(
        client.process_tx(tx(TransactionType::Withdrawal, 2, Some(1)), None),
        Err(Error::AccountLocked)
    );
    assert_eq!(
        client.process_tx(tx(TransactionType::Deposit, 3, Some(1)), None),
        Err(Error::AccountLocked)
    );
    Ok(())
}

#[test]
fn test_withdrawal_dispute_resolve_scenario() -> Result<(), Error> {
    let mut client = Client::default();
    client.deposit(30000)?;
    let withdrawal = tx(TransactionType::Withdrawal, 2, Some(10000));
    client.process_tx(withdrawal.clone(), None)?;
    assert_eq!(client.total, 20000);
    assert_eq!(client.available(), 20000);

    client.process_tx(tx(TransactionType::Dispute, 2, None), Some(withdrawal))?;
    assert_eq!(client.total, 30000);
    assert_eq!(client.get_held(), 10000);
    assert_eq!(client.available(), 20000);

    client.process_tx(tx(TransactionType::Resolve, 2, None), None)?;
    assert_eq!(client.total, 20000);
    assert_eq!(client.get_held(), 0);
    assert_eq!(client.available(), 20000);
    Ok(())
}

#[test]
fn test_withdrawal_dispute_chargeback_scenario() -> Result<(), Error> {
    let mut client = Client::default();
    client.deposit(30000)?;
    let withdrawal = tx(TransactionType::Withdrawal, 2, Some(10000));
    client.process_tx(withdrawal.clone(), None)?;
    client.process_tx(tx(TransactionType::Dispute, 2, None), Some(withdrawal))?;

    client.process_tx(tx(TransactionType::Chargeback, 2, None), None)?;
    // the withdrawal is reversed: the client keeps the credited amount
    assert_eq!(client.total, 30000);
    assert_eq!(client.get_held(), 0);
    assert!(client.locked);
    Ok(())
}

#[test]
fn test_unlock_clears_only_the_lock() -> Result<(), Error> {
    let mut client = Client::default();
    let deposit = tx(TransactionType::Deposit, 1, Some(10000));
    client.process_tx(deposit.clone(), None)?;
    client.deposit(5000)?;
    client.process_tx(tx(TransactionType::Dispute, 1, None), Some(deposit))?;
    client.process_tx(tx(TransactionType::Chargeback, 1, None), None)?;
    assert!(client.locked);
    assert_eq!(client.total, 5000);

    client.unlock();
    assert!(!client.locked);
    assert_eq!(client.total, 5000);
    assert_eq!(client.get_held(), 0);
    assert!(client.deposit(1000).is_ok());
    assert_eq!(client.total, 6000);
    Ok(())
}

#[test]
fn test_error_messages() {
    assert_eq!(
        Error::InsufficientBalance.message(),
        "Insufficient balance for withdrawal"
    );
    assert_eq!(Error::AccountLocked.message(), "Account is frozen");
    assert_eq!(Error::AmountMissing.message(), "No amount specified");
}
