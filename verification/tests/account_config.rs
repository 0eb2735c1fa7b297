use ferro_core::account_config::{
    load_and_reconcile, reconcile, AccountConfig, AccountConfigError, AccountsFile, ReconcileStep,
};
use ferro_core::db::accounts::Account;

fn entry(name: &str, host: &str) -> AccountConfig {
    AccountConfig {
        name: name.to_string(),
        host: host.to_string(),
        port: 995,
        username: "user".to_string(),
        use_tls: true,
    }
}

fn stored(id: i64, name: &str, host: &str) -> Account {
    Account {
        id,
        name: name.to_string(),
        host: host.to_string(),
        port: 995,
        username: "user".to_string(),
        use_tls: true,
        created_at: 0,
        uidl_supported: None,
    }
}

#[test]
fn reconcile_inserts_new_accounts() {
    let file = AccountsFile { accounts: vec![entry("Work", "pop.example.com")] };
    let steps = reconcile(&file, &vec![]).unwrap();
    assert_eq!(steps, vec![ReconcileStep::Insert { entry: 0 }]);
    assert_eq!(file.accounts[0].name, "Work");
    assert_eq!(file.accounts[0].host, "pop.example.com");
}

#[test]
fn reconcile_updates_existing_account_by_name_and_keeps_its_id() {
    let existing = vec![stored(7, "Work", "old-host.example.com")];
    let file = AccountsFile { accounts: vec![entry("Work", "new-host.example.com")] };
    let steps = reconcile(&file, &existing).unwrap();
    assert_eq!(steps.len(), 1);
    assert_eq!(steps[0], ReconcileStep::Update { id: 7, entry: 0 }, "id must be preserved across reconcile");
}

#[test]
fn reconcile_does_not_remove_accounts_missing_from_the_file() {
    let existing = vec![stored(7, "Work", "pop.example.com")];
    let steps = reconcile(&AccountsFile::empty(), &existing).unwrap();
    assert!(steps.is_empty(), "reconcile only returns accounts from the file");
}

#[test]
fn reconcile_rejects_duplicate_names_in_the_file() {
    let file = AccountsFile {
        accounts: vec![entry("Work", "pop.example.com"), entry("Work", "other.example.com")],
    };
    assert_eq!(
        reconcile(&file, &vec![]),
        Err(AccountConfigError::DuplicateName("Work".to_string()))
    );
}

#[test]
fn reconcile_matches_the_first_account_of_a_name_and_passes_load_errors_on() {
    let existing = vec![stored(3, "Home", "a"), stored(4, "Work", "b"), stored(5, "Work", "c")];
    let file = AccountsFile { accounts: vec![entry("Work", "x"), entry("New", "y"), entry("Home", "z")] };
    assert_eq!(
        reconcile(&file, &existing).unwrap(),
        vec![
            ReconcileStep::Update { id: 4, entry: 0 },
            ReconcileStep::Insert { entry: 1 },
            ReconcileStep::Update { id: 3, entry: 2 },
        ]
    );
    let err = AccountConfigError::Io("denied".to_string());
    assert_eq!(load_and_reconcile(Err(err.clone()), &existing), Err(err));
}

#[test]
fn removing_an_entry_keeps_the_others_in_order() {
    let file = AccountsFile { accounts: vec![entry("Work", "a"), entry("Home", "b"), entry("Old", "c")] };
    let after = file.without_entry("Home");
    assert_eq!(after.accounts, vec![entry("Work", "a"), entry("Old", "c")]);
    assert_eq!(file.without_entry("Missing").accounts, file.accounts);
}
