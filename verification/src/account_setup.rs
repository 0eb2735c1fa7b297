//! Creating an account touches two stores, the database row and the password
//! in the OS keyring. The steps are taken by the caller; this module decides
//! what comes next, so that a password that cannot be stored never leaves a
//! row behind.

use vstd::prelude::*;

use crate::account_config::AccountConfig;
use crate::db::accounts::Account;
use crate::text::str_eq;

verus! {

/// Why creating an account failed, with the message of the failure.
#[derive(Debug, Clone, PartialEq, Eq)]
pub enum CreateAccountError {
    /// The database refused a step.
    Db(String),
    /// The OS keyring did not store the password.
    Keyring(String),
    /// The row with this id read back with other settings than were inserted.
    ReadBackMismatch(i64),
}

/// Where the creation of an account stands: the next step for the caller.
/// Every stage carries the account being created, as given.
#[derive(Debug)]
pub enum AccountCreation {
    /// Insert a row for this account.
    InsertRow(AccountConfig),
    /// Store the password under the new row's id.
    StorePassword(i64, AccountConfig),
    /// Delete the row with this id, whose password could not be stored; the
    /// creation then fails with the error.
    RollBack(i64, CreateAccountError),
    /// Read the new row back.
    ReadBack(i64, AccountConfig),
    /// Finished: the account as stored, or why not.
    Done(Result<Account, CreateAccountError>),
}

/// The outcome of the step the caller took.
#[derive(Debug)]
pub enum CreationEvent {
    /// The row was inserted under this id, or the database refused it.
    Inserted(Result<i64, String>),
    /// The password was stored, or the keyring refused it.
    PasswordStored(Result<(), String>),
    /// The row was deleted (whether that worked does not change the outcome).
    RolledBack,
    /// The row as read back, or the database's error.
    ReadBack(Result<Option<Account>, String>),
}

/// The event answers the step: the caller reports the outcome of the step it
/// was asked to take, and a row just inserted is there to be read back.
pub open spec fn spec_event_fits(stage: AccountCreation, event: CreationEvent) -> bool {
    match stage {
        AccountCreation::InsertRow(_) => event is Inserted,
        AccountCreation::StorePassword(_, _) => event is PasswordStored,
        AccountCreation::RollBack(_, _) => event is RolledBack,
        AccountCreation::ReadBack(_, _) => event matches CreationEvent::ReadBack(r) && !(r matches Ok(None)),
        AccountCreation::Done(_) => false,
    }
}

/// The account read back is the one inserted: it has the row's id and the
/// name, host, port, user name and TLS choice that were given.
pub open spec fn spec_is_inserted(a: Account, id: i64, new: AccountConfig) -> bool {
    &&& a.id == id
    &&& a.name@ == new.name@
    &&& a.host@ == new.host@
    &&& a.port == new.port
    &&& a.username@ == new.username@
    &&& a.use_tls == new.use_tls
}

/// The next stage after `event`.
pub open spec fn spec_create(stage: AccountCreation, event: CreationEvent) -> AccountCreation {
    match (stage, event) {
        (AccountCreation::InsertRow(new), CreationEvent::Inserted(Ok(id))) => AccountCreation::StorePassword(id, new),
        (AccountCreation::InsertRow(_), CreationEvent::Inserted(Err(e))) => AccountCreation::Done(
            Err(CreateAccountError::Db(e)),
        ),
        (AccountCreation::StorePassword(id, new), CreationEvent::PasswordStored(Ok(()))) => AccountCreation::ReadBack(
            id,
            new,
        ),
        (AccountCreation::StorePassword(id, _), CreationEvent::PasswordStored(Err(e))) => AccountCreation::RollBack(
            id,
            CreateAccountError::Keyring(e),
        ),
        (AccountCreation::RollBack(_, err), CreationEvent::RolledBack) => AccountCreation::Done(Err(err)),
        (AccountCreation::ReadBack(id, new), CreationEvent::ReadBack(Ok(Some(account)))) => if spec_is_inserted(
            account,
            id,
            new,
        ) {
            AccountCreation::Done(Ok(account))
        } else {
            AccountCreation::Done(Err(CreateAccountError::ReadBackMismatch(id)))
        },
        (AccountCreation::ReadBack(_, _), CreationEvent::ReadBack(Err(e))) => AccountCreation::Done(
            Err(CreateAccountError::Db(e)),
        ),
        (s, _) => s,
    }
}

/// Takes the creation one step further: insert the row, store the password,
/// and read the row back; a password that cannot be stored has the row
/// deleted before the creation fails with the keyring's error, and a row
/// that reads back otherwise than it was inserted fails the creation.
pub fn create(stage: AccountCreation, event: CreationEvent) -> (next: AccountCreation)
    requires
        spec_event_fits(stage, event),
    ensures
        next == spec_create(stage, event),
{
    match (stage, event) {
        (AccountCreation::InsertRow(new), CreationEvent::Inserted(Ok(id))) => AccountCreation::StorePassword(id, new),
        (AccountCreation::InsertRow(_), CreationEvent::Inserted(Err(e))) => AccountCreation::Done(
            Err(CreateAccountError::Db(e)),
        ),
        (AccountCreation::StorePassword(id, new), CreationEvent::PasswordStored(Ok(()))) => AccountCreation::ReadBack(
            id,
            new,
        ),
        (AccountCreation::StorePassword(id, _), CreationEvent::PasswordStored(Err(e))) => AccountCreation::RollBack(
            id,
            CreateAccountError::Keyring(e),
        ),
        (AccountCreation::RollBack(_, err), CreationEvent::RolledBack) => AccountCreation::Done(Err(err)),
        (AccountCreation::ReadBack(id, new), CreationEvent::ReadBack(Ok(Some(account)))) => {
            if account.id == id && str_eq(account.name.as_str(), new.name.as_str()) && str_eq(
                account.host.as_str(),
                new.host.as_str(),
            ) && account.port == new.port && str_eq(account.username.as_str(), new.username.as_str())
                && account.use_tls == new.use_tls {
                AccountCreation::Done(Ok(account))
            } else {
                AccountCreation::Done(Err(CreateAccountError::ReadBackMismatch(id)))
            }
        },
        (AccountCreation::ReadBack(_, _), CreationEvent::ReadBack(Err(e))) => AccountCreation::Done(
            Err(CreateAccountError::Db(e)),
        ),
        (s, _) => s,
    }
}

/// No row is left without its password: a keyring failure always leads to
/// the deletion of the row that was inserted for it, and the creation fails
/// with the keyring's error only after that deletion.
pub proof fn lemma_keyring_failure_rolls_back(id: i64, new: AccountConfig, e: String, err: CreateAccountError)
    ensures
        spec_create(AccountCreation::StorePassword(id, new), CreationEvent::PasswordStored(Err(e)))
            == AccountCreation::RollBack(id, CreateAccountError::Keyring(e)),
        spec_create(AccountCreation::RollBack(id, err), CreationEvent::RolledBack) == AccountCreation::Done(
            Err::<Account, CreateAccountError>(err),
        ),
        forall|stage: AccountCreation, event: CreationEvent|
            spec_event_fits(stage, event) && (#[trigger] spec_create(stage, event) matches AccountCreation::Done(
                Err(CreateAccountError::Keyring(_)),
            )) ==> stage is RollBack,
{
}

/// A creation that succeeds went through every step in order (the row was
/// inserted, its password stored, and the row read back), and the account it
/// gives is the one inserted: it has the new row's id and the name, host,
/// port, user name and TLS choice that were given.
pub proof fn lemma_success_only_after_read_back(stage: AccountCreation, event: CreationEvent)
    requires
        spec_event_fits(stage, event),
        spec_create(stage, event) matches AccountCreation::Done(Ok(_)),
    ensures
        stage is ReadBack,
        (event matches CreationEvent::ReadBack(Ok(Some(a))) && spec_create(stage, event) == AccountCreation::Done(
            Ok::<Account, CreateAccountError>(a),
        )),
        stage matches AccountCreation::ReadBack(id, new) ==> (spec_create(stage, event) matches AccountCreation::Done(
            Ok(a),
        ) && spec_is_inserted(a, id, new)),
{
}

/// The account that enters the creation is the one read back against: each
/// step that goes on hands the given account on unchanged, with the row's id
/// once it is known.
pub proof fn lemma_input_is_carried(new: AccountConfig, id: i64)
    ensures
        spec_create(AccountCreation::InsertRow(new), CreationEvent::Inserted(Ok(id))) == AccountCreation::StorePassword(
            id,
            new,
        ),
        spec_create(AccountCreation::StorePassword(id, new), CreationEvent::PasswordStored(Ok(())))
            == AccountCreation::ReadBack(id, new),
{
}

} // verus!
