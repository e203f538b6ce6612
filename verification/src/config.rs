//! The resolved configuration an engine runs with, and the HTTP client
//! that talks to a running engine.
use vstd::prelude::*;

verus! {

/// The resolved configuration: where the engine keeps its data, the
/// project, brain and bookmark it works on, and the base URL of its
/// service.
#[derive(Debug)]
pub struct Config {
    pub data_dir: String,
    pub project: String,
    pub brain: String,
    pub bookmark: String,
    pub service_url: String,
}

impl Config {
    /// The base URL of the engine's HTTP service.
    pub fn base_url(&self) -> (r: String)
        ensures
            r@ == self.service_url@,
    {
        self.service_url.clone()
    }
}

impl Clone for Config {
    fn clone(&self) -> (r: Self)
        ensures
            r.data_dir@ == self.data_dir@,
            r.project@ == self.project@,
            r.brain@ == self.brain@,
            r.bookmark@ == self.bookmark@,
            r.service_url@ == self.service_url@,
    {
        Config {
            data_dir: self.data_dir.clone(),
            project: self.project.clone(),
            brain: self.brain.clone(),
            bookmark: self.bookmark.clone(),
            service_url: self.service_url.clone(),
        }
    }
}

/// An HTTP client for a running engine, addressed by its base URL.
#[derive(Debug)]
pub struct Client {
    base_url: String,
}

impl Client {
    /// A client for the engine at `base_url`.
    pub fn new(base_url: String) -> (r: Self)
        ensures
            r.base_url() == base_url@,
    {
        Client { base_url }
    }

    /// The base URL this client talks to.
    pub closed spec fn base_url(&self) -> Seq<char> {
        self.base_url@
    }

    /// The base URL this client talks to.
    pub fn url(&self) -> (r: &str)
        ensures
            r@ == self.base_url(),
    {
        self.base_url.as_str()
    }
}

} // verus!
