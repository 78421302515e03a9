//! The service's settings, read from the environment.

use vstd::prelude::*;
use vstd::string::*;

use crate::text::{parse_u16, parse_u16_spec};

verus! {

/// The service's settings.
#[derive(Debug, Clone)]
pub struct Config {
    /// Where the database is.
    pub database_url: String,
    /// The port the service listens on.
    pub port: u16,
}

/// Why the settings cannot be made.
#[derive(Debug, PartialEq, Eq, Structural)]
pub enum ConfigError {
    /// `DATABASE_URL` is not set.
    MissingDatabaseUrl,
    /// `PORT` is not a 16-bit unsigned decimal number.
    InvalidPort,
}

/// The text of the port setting: the `PORT` variable, or `8080` when unset.
pub open spec fn port_text(port: Option<String>) -> Seq<char> {
    match port {
        Some(p) => p@,
        None => "8080"@,
    }
}

impl Config {
    /// Makes the settings from the values of `DATABASE_URL` and `PORT` (each
    /// `None` when unset): the database URL is required; the port is 8080 by
    /// default and must read as a `u16`. A missing database URL is reported
    /// first.
    pub fn from_values(database_url: Option<String>, port: Option<String>) -> (r: Result<
        Config,
        ConfigError,
    >)
        ensures
            database_url is None ==> r == Err::<Config, ConfigError>(
                ConfigError::MissingDatabaseUrl,
            ),
            database_url is Some && parse_u16_spec(port_text(port)) is None ==> r == Err::<
                Config,
                ConfigError,
            >(ConfigError::InvalidPort),
            r matches Ok(c) ==> {
                &&& database_url matches Some(url) && c.database_url@ == url@
                &&& parse_u16_spec(port_text(port)) == Some(c.port)
            },
            database_url is Some && parse_u16_spec(port_text(port)) is Some ==> r is Ok,
    {
        let url = match database_url {
            Some(u) => u,
            None => {
                return Err(ConfigError::MissingDatabaseUrl);
            },
        };
        let text = match port {
            Some(p) => p,
            None => String::from_str("8080"),
        };
        match parse_u16(text.as_str()) {
            Some(p) => Ok(Config { database_url: url, port: p }),
            None => Err(ConfigError::InvalidPort),
        }
    }
}

} // verus!
