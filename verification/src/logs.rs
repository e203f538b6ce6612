//! Request-shaped context for host-tier callers.
use vstd::prelude::*;

use crate::config::{Client, Config};

verus! {

/// The request's configuration, with a client for commands that dispatch
/// through HTTP.
#[derive(Debug, Clone)]
pub struct HostLog {
    pub config: Config,
}

impl HostLog {
    /// The context for `config`.
    pub fn new(config: Config) -> (r: Self)
        ensures
            r.config == config,
    {
        HostLog { config }
    }

    /// An HTTP client for system operations, addressed at the configured
    /// service.
    pub fn client(&self) -> (r: Client)
        ensures
            r.base_url() == self.config.service_url@,
    {
        Client::new(self.config.base_url())
    }
}

/// The request's configuration, with brain and bookmark resolved, for
/// bookmark-tier callers.
#[derive(Debug, Clone)]
pub struct ProjectLog {
    pub config: Config,
}

impl ProjectLog {
    /// The context for `config`.
    pub fn new(config: Config) -> (r: Self)
        ensures
            r.config == config,
    {
        ProjectLog { config }
    }

    /// The brain name for this project.
    pub fn brain_name(&self) -> (r: &String)
        ensures
            r@ == self.config.brain@,
    {
        &self.config.brain
    }
}

} // verus!
