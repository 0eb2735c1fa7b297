//! Accounts: connection settings of one POP3 mailbox (the password is kept in
//! the OS keyring, not here).

use vstd::prelude::*;

verus! {

#[derive(Debug, Clone, PartialEq, Eq)]
pub struct Account {
    pub id: i64,
    pub name: String,
    pub host: String,
    pub port: u16,
    pub username: String,
    pub use_tls: bool,
    pub created_at: i64,
    /// Whether the server answers `UIDL`: `None` until a sync finds out,
    /// `Some(false)` once it refused, after which messages are named by a hash
    /// of their content.
    pub uidl_supported: Option<bool>,
}

/// The input of a new account. The password is not part of it: the caller
/// stores it in the OS keyring.
#[derive(Debug, Clone, Copy)]
pub struct NewAccount<'a> {
    pub name: &'a str,
    pub host: &'a str,
    pub port: u16,
    pub username: &'a str,
    pub use_tls: bool,
}

} // verus!
