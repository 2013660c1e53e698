//! The settings of the server.

use crate::text;
use vstd::prelude::*;
use vstd::string::*;

verus! {

/// The port that the server listens on unless it is told another.
pub const DEFAULT_PORT: u16 = 7000;

/// The seconds between two saves of the server's records.
pub const SAVE_INTERVAL_SECS: u64 = 5;

/// The settings of the server.
#[derive(Clone, Debug)]
pub struct AppConfig {
    /// The directory that is scanned for files.
    pub target_dir: String,
    /// The file that the listing of downloaded files is kept in.
    pub downloaded_files_path: String,
    /// The file that the listing of uploaded files is kept in.
    pub uploaded_files_path: String,
    /// The key that each request has to present.
    pub api_key: String,
}

impl Default for AppConfig {
    fn default() -> (r: Self)
        ensures
            r.target_dir@ == "."@,
            r.downloaded_files_path@ == "downloaded_files.txt"@,
            r.uploaded_files_path@ == "uploaded_files.txt"@,
            r.api_key@ == ""@,
    {
        AppConfig {
            target_dir: ".".to_owned(),
            downloaded_files_path: "downloaded_files.txt".to_owned(),
            uploaded_files_path: "uploaded_files.txt".to_owned(),
            api_key: "".to_owned(),
        }
    }
}

impl AppConfig {
    /// The default settings for a server of the files in `target_dir`.
    pub fn for_target(target_dir: String) -> (r: Self)
        ensures
            r.target_dir == target_dir,
            r.downloaded_files_path@ == "downloaded_files.txt"@,
            r.uploaded_files_path@ == "uploaded_files.txt"@,
            r.api_key@ == ""@,
    {
        let defaults = AppConfig::default();
        AppConfig {
            target_dir,
            downloaded_files_path: defaults.downloaded_files_path,
            uploaded_files_path: defaults.uploaded_files_path,
            api_key: defaults.api_key,
        }
    }

    /// The settings that a command line gives. The files of the listings are the
    /// default ones where it does not name others.
    pub fn from_args(
        target_dir: String,
        downloaded_files_path: Option<String>,
        uploaded_files_path: Option<String>,
        api_key: String,
    ) -> (r: Self)
        ensures
            r.target_dir == target_dir,
            match downloaded_files_path {
                Some(p) => r.downloaded_files_path == p,
                None => r.downloaded_files_path@ == "downloaded_files.txt"@,
            },
            match uploaded_files_path {
                Some(p) => r.uploaded_files_path == p,
                None => r.uploaded_files_path@ == "uploaded_files.txt"@,
            },
            r.api_key == api_key,
    {
        let defaults = AppConfig::default();
        AppConfig {
            target_dir,
            downloaded_files_path: downloaded_files_path.unwrap_or(defaults.downloaded_files_path),
            uploaded_files_path: uploaded_files_path.unwrap_or(defaults.uploaded_files_path),
            api_key,
        }
    }
}

/// The address that a server on `port` listens on: every interface of the host.
pub fn listen_address(port: u16) -> (r: String)
    ensures
        r@ == "0.0.0.0:"@ + text::decimal(port as nat),
{
    let mut s = "0.0.0.0:".to_owned();
    s.append(text::to_decimal(port as u64).as_str());
    s
}

/// The server listens on port 7000 and saves its records every five seconds.
pub proof fn law_server_constants()
    ensures
        DEFAULT_PORT == 7000,
        SAVE_INTERVAL_SECS == 5,
{
}

} // verus!
