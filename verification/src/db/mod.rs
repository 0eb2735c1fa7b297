//! The records that the SQLite database holds, and the logic around them.

pub mod accounts;
pub mod labels;
pub mod messages;
pub mod settings;
