//! The server: the files it tracks, the work it hands out and its replies.

pub mod config;
pub mod file_set;
pub mod manifest;
pub mod manifest_file;
pub mod shutdown;
pub mod state;
pub mod upload;

pub use config::AppConfig;
pub use file_set::{
    load_downloaded_files, load_uploaded_files, save_downloaded_files, save_uploaded_files,
};
pub use manifest::load_file_list;
pub use state::AppState;
