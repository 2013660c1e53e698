//! The settings of the client.

use vstd::prelude::*;
use vstd::string::*;

verus! {

/// The number of workers unless another is asked for.
pub const DEFAULT_CONCURRENCY: usize = 4;

/// The direction of a transfer.
#[derive(Clone, Copy, PartialEq, Eq, Debug, Structural)]
pub enum Mode {
    /// From the client to the server.
    Push,
    /// From the server to the client.
    Pull,
}

impl Mode {
    /// The mode that `name` names: `push` or `pull`.
    pub fn parse(name: &str) -> (r: Option<Mode>)
        ensures
            r == (if name@ == "push"@ {
                Some(Mode::Push)
            } else if name@ == "pull"@ {
                Some(Mode::Pull)
            } else {
                None
            }),
    {
        proof {
            reveal_strlit("push");
            reveal_strlit("pull");
        }
        let name = name.to_owned();
        if name == "push".to_owned() {
            Some(Mode::Push)
        } else if name == "pull".to_owned() {
            Some(Mode::Pull)
        } else {
            None
        }
    }

    /// The mode that was asked for by name, or else the one that the `pull` switch
    /// says.
    pub fn pick(named: Option<Mode>, pull: bool) -> (r: Mode)
        ensures
            r == (match named {
                Some(mode) => mode,
                None => if pull {
                    Mode::Pull
                } else {
                    Mode::Push
                },
            }),
    {
        match named {
            Some(mode) => mode,
            None => if pull {
                Mode::Pull
            } else {
                Mode::Push
            },
        }
    }
}

/// The settings of the client.
#[derive(Debug, Clone)]
pub struct ClientConfig {
    pub server_url: String,
    /// The number of workers that transfer files side by side.
    pub concurrency: usize,
    pub mode: Mode,
    /// The mapping of paths, in the form `source:target`.
    pub remap: Option<String>,
    pub tls: bool,
    /// The key that is presented to the server.
    pub api_key: String,
}

impl Default for ClientConfig {
    fn default() -> (r: Self)
        ensures
            r.server_url@ == "http://localhost:7000"@,
            r.concurrency == 4,
            r.mode == Mode::Push,
            r.remap is None,
            !r.tls,
            r.api_key@ == ""@,
    {
        ClientConfig {
            server_url: "http://localhost:7000".to_owned(),
            concurrency: DEFAULT_CONCURRENCY,
            mode: Mode::Push,
            remap: None,
            tls: false,
            api_key: "".to_owned(),
        }
    }
}

impl ClientConfig {
    /// The settings of a run without a key, with four workers where no number is
    /// given.
    pub fn for_run(
        server_url: String,
        mode: Mode,
        concurrency: Option<usize>,
        remap: Option<String>,
        tls: bool,
    ) -> (r: Self)
        ensures
            r.server_url == server_url,
            r.concurrency == (match concurrency {
                Some(n) => n,
                None => 4,
            }),
            r.mode == mode,
            r.remap == remap,
            r.tls == tls,
            r.api_key@ == ""@,
    {
        ClientConfig {
            server_url,
            concurrency: concurrency.unwrap_or(DEFAULT_CONCURRENCY),
            mode,
            remap,
            tls,
            api_key: "".to_owned(),
        }
    }
}

/// Four workers run unless another number is asked for.
pub proof fn law_client_constants()
    ensures
        DEFAULT_CONCURRENCY == 4,
{
}

} // verus!
