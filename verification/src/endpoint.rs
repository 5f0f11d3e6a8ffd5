//! The endpoint: connections by identity over the relay, direct UDP and
//! WebRTC channels.

pub mod entry;
pub mod error;
pub mod state;
pub mod conn;
pub mod stream;
pub mod dial;
pub mod drain;
pub mod pump;
pub mod path;
pub mod history;
