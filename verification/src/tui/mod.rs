//! The state and the decisions of the terminal user interface; drawing and
//! reading keys are done by the caller.

pub mod app;
pub mod background;
pub mod keymap;
pub mod ui;

pub mod colors;
