//! Core logic of the ShellWhisper chat server: message framing, connection
//! bookkeeping, the per-connection session protocol and the terminal UI state.

pub mod client;
pub mod clock;
pub mod handles;
pub mod server_error;
pub mod server_state;
pub mod text;
pub mod ui;
