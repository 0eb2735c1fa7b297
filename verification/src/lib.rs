//! ferro-core: the logic of a receive-only POP3 mail client, verified with Verus.

pub mod account_config;
pub mod account_setup;
pub mod background;
pub mod cli;
pub mod bench;
pub mod color_rules;
pub mod db;
pub mod mail;
pub mod logging;
pub mod maildir;
pub mod message_actions;
pub mod paths;
pub mod pop3;
pub mod search;
pub mod settings;
pub mod sync;
pub mod text;
pub mod tui;
