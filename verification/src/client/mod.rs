//! The client: its settings, the paths it maps, the requests it makes and what it
//! takes from the replies.

pub mod config;
pub mod crew;
pub mod exchange;
pub mod transfer;
pub mod worker;

pub use config::{ClientConfig, Mode};
pub use transfer::FileTransferClient;
