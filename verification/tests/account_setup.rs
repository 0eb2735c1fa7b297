use ferro_core::account_config::AccountConfig;
use ferro_core::account_setup::{create, AccountCreation, CreateAccountError, CreationEvent};
use ferro_core::db::accounts::Account;

fn input() -> AccountConfig {
    AccountConfig {
        name: "Work".to_string(),
        host: "pop.example.com".to_string(),
        port: 995,
        username: "user".to_string(),
        use_tls: true,
    }
}

fn account(id: i64) -> Account {
    Account {
        id,
        name: "Work".to_string(),
        host: "pop.example.com".to_string(),
        port: 995,
        username: "user".to_string(),
        use_tls: true,
        created_at: 0,
        uidl_supported: None,
    }
}

#[test]
fn creation_inserts_stores_the_password_and_reads_back() {
    let s = create(AccountCreation::InsertRow(input()), CreationEvent::Inserted(Ok(4)));
    assert!(matches!(s, AccountCreation::StorePassword(4, _)));
    let s = create(s, CreationEvent::PasswordStored(Ok(())));
    assert!(matches!(s, AccountCreation::ReadBack(4, _)));
    let s = create(s, CreationEvent::ReadBack(Ok(Some(account(4)))));
    match s {
        AccountCreation::Done(Ok(a)) => assert_eq!(a, account(4)),
        other => panic!("unexpected {other:?}"),
    }
}

#[test]
fn keyring_failure_deletes_the_row_before_failing() {
    let s = create(AccountCreation::InsertRow(input()), CreationEvent::Inserted(Ok(9)));
    let s = create(s, CreationEvent::PasswordStored(Err("no secret service".to_string())));
    match &s {
        AccountCreation::RollBack(9, CreateAccountError::Keyring(m)) => assert_eq!(m, "no secret service"),
        other => panic!("unexpected {other:?}"),
    }
    let s = create(s, CreationEvent::RolledBack);
    match s {
        AccountCreation::Done(Err(CreateAccountError::Keyring(m))) => assert_eq!(m, "no secret service"),
        other => panic!("unexpected {other:?}"),
    }
}

#[test]
fn database_failures_end_the_creation() {
    let s = create(AccountCreation::InsertRow(input()), CreationEvent::Inserted(Err("UNIQUE".to_string())));
    assert!(matches!(s, AccountCreation::Done(Err(CreateAccountError::Db(_)))));
    let s = create(AccountCreation::ReadBack(1, input()), CreationEvent::ReadBack(Err("locked".to_string())));
    assert!(matches!(s, AccountCreation::Done(Err(CreateAccountError::Db(_)))));
}

#[test]
fn a_row_that_reads_back_otherwise_fails_the_creation() {
    let mut other = account(4);
    other.host = "elsewhere.example.com".to_string();
    let s = create(AccountCreation::ReadBack(4, input()), CreationEvent::ReadBack(Ok(Some(other))));
    assert!(matches!(s, AccountCreation::Done(Err(CreateAccountError::ReadBackMismatch(4)))));
    let s = create(AccountCreation::ReadBack(5, input()), CreationEvent::ReadBack(Ok(Some(account(4)))));
    assert!(matches!(s, AccountCreation::Done(Err(CreateAccountError::ReadBackMismatch(5)))));
}
