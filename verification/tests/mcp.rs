use oneiros_engine::mcp::{ErrorHints, ToolError};

#[test]
fn tool_errors_describe_themselves() {
    assert_eq!(ToolError::UnknownTool("x".into()).message(), "Unknown tool: x");
    assert_eq!(ToolError::App("boom".into()).message(), "Application error: boom");
    assert_eq!(ToolError::Malformed("eof".into()).message(), "Malformed input: eof");
    assert_eq!(ToolError::Parameter("p".into()).message(), "Parameter error: p");
    assert_eq!(ToolError::NotFound("a".into()).message(), "Not found: a");
    assert_eq!(ToolError::NotAResource("w".into()).message(), "Not a resource: w");
}

#[test]
fn bad_input_errors_hint_only_at_agents() {
    assert_eq!(ToolError::Parameter("p".into()).hints(), ErrorHints::InspectAgents);
    assert_eq!(ToolError::Malformed("m".into()).hints(), ErrorHints::InspectAgents);
    assert_eq!(
        ToolError::NotFound("n".into()).hints(),
        ErrorHints::InspectAgentsAndSearch
    );
    assert_eq!(
        ToolError::UnknownTool("u".into()).hints(),
        ErrorHints::InspectAgentsAndSearch
    );
}

use oneiros_engine::mcp::{dream_description, prompt_request, PromptRequest};

#[test]
fn dream_prompt_needs_an_agent() {
    match prompt_request("dream", Some("gov")) {
        Ok(PromptRequest::Dream { agent }) => assert_eq!(agent, "gov"),
        other => panic!("unexpected {other:?}"),
    }
    assert_eq!(
        prompt_request("dream", None).unwrap_err().message,
        "Missing required argument: agent"
    );
    assert_eq!(
        prompt_request("nap", Some("gov")).unwrap_err().message,
        "Unknown prompt: nap"
    );
    assert_eq!(dream_description("gov"), "Dream context for gov");
}
