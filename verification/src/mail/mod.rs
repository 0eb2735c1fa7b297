//! Reading raw messages: headers for the list, attachments for the detail
//! view.

pub mod attachments;
pub mod parse;
