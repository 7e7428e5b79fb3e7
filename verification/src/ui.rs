//! The state of the server's terminal UI, how keys and notices change it,
//! and the texts its screens show.

pub mod ui_control;
pub mod ui_screen;
pub mod ui_state;
