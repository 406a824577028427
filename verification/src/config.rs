//! Daemon configuration. The transport is a local Unix-domain socket; its
//! path comes from an environment variable or falls back to a default.
use vstd::prelude::*;

verus! {

/// The environment variable that names the socket path.
pub const SOCKET_PATH_ENV: &'static str = "PI4GPIO_SOCKET_PATH";

/// The socket path when the environment does not name one.
pub const DEFAULT_SOCKET_PATH: &'static str = "/run/pi4gpio/pi4gpio.sock";

pub open spec fn default_socket_path() -> Seq<char> {
    DEFAULT_SOCKET_PATH@
}

/// The daemon's settings.
pub struct Config {
    pub socket_path: String,
}

impl Config {
    /// The settings given the value of `SOCKET_PATH_ENV`, absent when the
    /// variable is unset or not valid Unicode.
    pub fn from_env_value(value: Option<String>) -> (r: Config)
        ensures
            r.socket_path@ == match value {
                Some(v) => v@,
                None => default_socket_path(),
            },
    {
        let socket_path = match value {
            Some(v) => v,
            None => String::from_str(DEFAULT_SOCKET_PATH),
        };
        Config { socket_path }
    }
}

} // verus!
