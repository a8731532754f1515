//! Service configuration resolved from environment values.
//!
//! The surrounding program reads the environment; this module makes the
//! decisions: which defaults apply and how the port string is interpreted.

use vstd::prelude::*;
use vstd::string::*;

use crate::digits::{parse_u16, parsed_u16};
use crate::history::opt_string_view;

verus! {

/// The resolved service configuration: the persistent-store connection
/// string, the catalog API key, and the listening port.
#[derive(Debug, Clone)]
pub struct Config {
    pub database_url: String,
    pub tmdb_api_key: String,
    pub port: u16,
}

/// The port a deployment resolves to: the environment value when it parses
/// as an unsigned 16-bit decimal, else the default 3000.
pub open spec fn resolved_port(env_port: Option<Seq<char>>) -> int {
    match env_port {
        Some(p) => match parsed_u16(p) {
            Some(v) => v as int,
            None => 3000,
        },
        None => 3000,
    }
}

/// The connection string a deployment resolves to: the environment value,
/// or the bundled default store.
pub open spec fn resolved_database_url(env_database_url: Option<Seq<char>>) -> Seq<char> {
    match env_database_url {
        Some(d) => d,
        None => "sqlite://./streaming.db"@,
    }
}

impl Config {
    /// Resolves the configuration from environment values.  The catalog API
    /// key is required; everything else has a default.  Returns nothing
    /// exactly when the key is missing.
    pub fn resolve(
        database_url: Option<String>,
        tmdb_api_key: Option<String>,
        port: Option<String>,
    ) -> (r: Option<Config>)
        ensures
            match r {
                Some(c) => {
                    &&& tmdb_api_key is Some
                    &&& c.tmdb_api_key@ == tmdb_api_key->Some_0@
                    &&& c.database_url@ == resolved_database_url(opt_string_view(database_url))
                    &&& c.port as int == resolved_port(opt_string_view(port))
                },
                None => tmdb_api_key is None,
            },
    {
        let key = match tmdb_api_key {
            Some(k) => k,
            None => {
                return None;
            },
        };
        let url = match database_url {
            Some(d) => d,
            None => "sqlite://./streaming.db".to_owned(),
        };
        let resolved: u16 = match port {
            Some(p) => match parse_u16(p.as_str()) {
                Some(v) => v,
                None => 3000,
            },
            None => 3000,
        };
        Some(Config { database_url: url, tmdb_api_key: key, port: resolved })
    }
}

} // verus!
