//! The POP3 protocol as the client speaks it: reading status lines and
//! multi-line replies, parsing `STAT`, `LIST` and `UIDL` lines, and choosing how
//! to connect. The socket itself belongs to the caller.

pub mod error;
pub mod protocol;

pub use error::Pop3Error;
