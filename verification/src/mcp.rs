//! Errors of MCP tool dispatch and resource reading, and the hints that
//! accompany them.
use vstd::prelude::*;

use crate::text::{push_str, same_text};

verus! {

/// Errors that can occur during MCP tool dispatch or resource reading.
/// Each carries the text of what went wrong.
#[derive(Debug)]
pub enum ToolError {
    /// An application-level error from the engine.
    App(String),
    /// The input could not be deserialized.
    Malformed(String),
    /// The requested tool name is not handled by any domain.
    UnknownTool(String),
    /// A parameter could not be deserialized or was otherwise invalid.
    Parameter(String),
    /// The requested entity was not found.
    NotFound(String),
    /// A write operation was requested through the resource (read) path.
    NotAResource(String),
}

impl ToolError {
    /// The human-readable description of this error.
    pub fn message(&self) -> (r: String)
        ensures
            r@ == match self {
                ToolError::App(t) => "Application error: "@ + t@,
                ToolError::Malformed(t) => "Malformed input: "@ + t@,
                ToolError::UnknownTool(t) => "Unknown tool: "@ + t@,
                ToolError::Parameter(t) => "Parameter error: "@ + t@,
                ToolError::NotFound(t) => "Not found: "@ + t@,
                ToolError::NotAResource(t) => "Not a resource: "@ + t@,
            },
    {
        let mut s = String::new();
        match self {
            ToolError::App(t) => {
                push_str(&mut s, "Application error: ");
                push_str(&mut s, t.as_str());
            },
            ToolError::Malformed(t) => {
                push_str(&mut s, "Malformed input: ");
                push_str(&mut s, t.as_str());
            },
            ToolError::UnknownTool(t) => {
                push_str(&mut s, "Unknown tool: ");
                push_str(&mut s, t.as_str());
            },
            ToolError::Parameter(t) => {
                push_str(&mut s, "Parameter error: ");
                push_str(&mut s, t.as_str());
            },
            ToolError::NotFound(t) => {
                push_str(&mut s, "Not found: ");
                push_str(&mut s, t.as_str());
            },
            ToolError::NotAResource(t) => {
                push_str(&mut s, "Not a resource: ");
                push_str(&mut s, t.as_str());
            },
        }
        s
    }

    /// The hints an error response carries: pointing at the agents
    /// resource and suggesting a search, or, for bad input, only pointing
    /// at the agents resource.
    pub fn hints(&self) -> (r: ErrorHints)
        ensures
            r == (if self is Parameter || self is Malformed {
                ErrorHints::InspectAgents
            } else {
                ErrorHints::InspectAgentsAndSearch
            }),
    {
        match self {
            ToolError::UnknownTool(_) | ToolError::NotAResource(_) => {
                ErrorHints::InspectAgentsAndSearch
            },
            ToolError::App(_) | ToolError::NotFound(_) => ErrorHints::InspectAgentsAndSearch,
            ToolError::Parameter(_) | ToolError::Malformed(_) => ErrorHints::InspectAgents,
        }
    }
}

/// The hints of an MCP error response.
#[derive(Debug, Clone, Copy, PartialEq, Eq, Structural)]
pub enum ErrorHints {
    /// "See available agents".
    InspectAgents,
    /// "See available agents" and "Search across everything".
    InspectAgentsAndSearch,
}

/// A prompt request that can be served: the dream context of an agent.
#[derive(Debug)]
pub enum PromptRequest {
    Dream { agent: String },
}

/// Why a prompt request is refused, as invalid parameters with this text.
#[derive(Debug)]
pub struct PromptRefusal {
    pub message: String,
}

/// The prompt a request names, from its name and its `agent` argument
/// (`None` when it is missing or not a string): `dream` needs an agent;
/// any other name is unknown.
pub fn prompt_request(name: &str, agent: Option<&str>) -> (r: Result<PromptRequest, PromptRefusal>)
    ensures
        name@ == "dream"@ ==> match agent {
            Some(a) => r matches Ok(PromptRequest::Dream { agent: x }) && x@ == a@,
            None => r matches Err(e) && e.message@ == "Missing required argument: agent"@,
        },
        name@ != "dream"@ ==> (r matches Err(e) && e.message@ == "Unknown prompt: "@ + name@),
{
    if same_text(name, "dream") {
        match agent {
            Some(a) => Ok(PromptRequest::Dream { agent: a.to_owned() }),
            None => {
                let mut message = String::new();
                push_str(&mut message, "Missing required argument: agent");
                Err(PromptRefusal { message })
            },
        }
    } else {
        let mut message = String::new();
        push_str(&mut message, "Unknown prompt: ");
        push_str(&mut message, name);
        Err(PromptRefusal { message })
    }
}

/// The description of a dream prompt for `agent`.
pub fn dream_description(agent: &str) -> (r: String)
    ensures
        r@ == "Dream context for "@ + agent@,
{
    let mut s = String::new();
    push_str(&mut s, "Dream context for ");
    push_str(&mut s, agent);
    s
}

} // verus!
