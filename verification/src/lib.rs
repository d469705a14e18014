//! Token-transfer notifications: an index of who watches which address, and the
//! rules that turn a transfer record into the messages to send.

pub mod address;
pub mod amount;
pub mod assoc;
pub mod bot;
pub mod chain_listener;
pub mod chains;
pub mod model;
pub mod state;
pub mod subscription;
