//! Settings of the backend, as read from its configuration file.
use vstd::prelude::*;

verus! {

/// Where the judge master listens, and its password.
#[derive(Clone, Debug)]
pub struct Host {
    pub host: String,
    pub host_pass: String,
}

/// The HTTP front end.
#[derive(Clone, Debug)]
pub struct Web {
    pub host: String,
    pub enable_gql_playground: bool,
}

/// The session store.
#[derive(Clone, Debug)]
pub struct Redis {
    pub url: String,
}

/// Site-wide defaults. `timezone` is an IANA zone name and
/// `default_language` the 128-bit value of a language UUID.
#[derive(Clone, Debug)]
pub struct General {
    pub timezone: String,
    pub default_language: u128,
    pub db_threads: Option<usize>,
}

#[derive(Clone, Debug)]
pub struct Config {
    pub general: General,
    pub host: Host,
    pub web: Web,
    pub redis: Redis,
}

impl General {
    /// Number of store workers: the configured count, or else `cpus`, the
    /// number of processors of the machine.
    pub fn db_workers(&self, cpus: usize) -> (r: usize)
        ensures
            r == match self.db_threads {
                Some(n) => n,
                None => cpus,
            },
    {
        match self.db_threads {
            Some(n) => n,
            None => cpus,
        }
    }
}

} // verus!
