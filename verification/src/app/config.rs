//! The persisted settings: this device's display name, the port the server
//! listens on and the last address joined. Reading and writing the settings
//! file, and reading the environment, belong to the program's runtime.
use vstd::prelude::*;
use crate::network::DEFAULT_PORT;

verus! {

/// The settings kept between runs.
#[derive(Debug, Clone)]
pub struct Config {
    /// The name shown to peers.
    pub device_name: String,
    /// The port the server listens on.
    pub listen_port: u16,
    /// The last address joined, offered again in the join dialog.
    pub peer_hint: Option<String>,
}

/// The name used when neither `HOSTNAME` nor `COMPUTERNAME` is set.
pub open spec fn fallback_device_name() -> Seq<char> {
    seq!['M', 'y', ' ', 'D', 'e', 'v', 'i', 'c', 'e']
}

/// The default device name: `HOSTNAME` if set, else `COMPUTERNAME`, else
/// `My Device`.
pub open spec fn default_device_name_spec(hostname: Option<Seq<char>>, computername: Option<Seq<char>>) -> Seq<char> {
    match hostname {
        Some(h) => h,
        None => match computername {
            Some(c) => c,
            None => fallback_device_name(),
        },
    }
}

/// The view of an optional string.
pub open spec fn opt_chars(s: Option<String>) -> Option<Seq<char>> {
    match s {
        Some(x) => Some(x@),
        None => None,
    }
}

impl Config {
    /// The default device name, from the values of the `HOSTNAME` and
    /// `COMPUTERNAME` environment variables (`None` when unset).
    pub fn default_device_name(hostname: Option<String>, computername: Option<String>) -> (r: String)
        ensures
            r@ == default_device_name_spec(opt_chars(hostname), opt_chars(computername)),
    {
        match hostname {
            Some(h) => h,
            None => match computername {
                Some(c) => c,
                None => {
                    let r = "My Device".to_owned();
                    proof {
                        reveal_strlit("My Device");
                    }
                    r
                },
            },
        }
    }

    /// The default port: the protocol's port.
    pub fn default_listen_port() -> (r: u16)
        ensures
            r == DEFAULT_PORT,
    {
        DEFAULT_PORT
    }

    /// The default settings for a device name: the default port and no hint.
    pub fn with_device_name(device_name: String) -> (r: Config)
        ensures
            r.device_name == device_name,
            r.listen_port == DEFAULT_PORT,
            r.peer_hint is None,
    {
        Config { device_name, listen_port: DEFAULT_PORT, peer_hint: None }
    }

    /// An exact copy.
    pub fn duplicate(&self) -> (r: Config)
        ensures
            r.device_name@ == self.device_name@,
            r.listen_port == self.listen_port,
            opt_chars(r.peer_hint) == opt_chars(self.peer_hint),
    {
        Config {
            device_name: self.device_name.clone(),
            listen_port: self.listen_port,
            peer_hint: match &self.peer_hint {
                Some(h) => Some(h.clone()),
                None => None,
            },
        }
    }
}

} // verus!
