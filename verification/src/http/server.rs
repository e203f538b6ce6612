//! The HTTP server of an engine, by the configuration it serves.
use vstd::prelude::*;

use crate::config::Config;

verus! {

/// An HTTP server for a configuration.
#[derive(Debug)]
pub struct Server {
    config: Config,
}

impl Server {
    /// A server for `config`.
    pub fn new(config: Config) -> (r: Self)
        ensures
            r.configuration() == config,
    {
        Server { config }
    }

    /// The configuration this server serves.
    pub closed spec fn configuration(&self) -> Config {
        self.config
    }

    /// The configuration this server serves.
    pub fn config(&self) -> (r: &Config)
        ensures
            *r == self.configuration(),
    {
        &self.config
    }
}

} // verus!
