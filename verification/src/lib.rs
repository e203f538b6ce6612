use vstd::prelude::*;

pub mod config;
pub mod engine;
pub mod error;
pub mod event_log;
pub mod events;
pub mod http;
pub mod invocation;
pub mod keys;
pub mod lens;
pub mod logs;
pub mod mailbox;
pub mod mcp;
pub mod messages;
pub mod migrations;
pub mod text;

verus! {

} // verus!
