use oneiros_engine::config::Config;
use oneiros_engine::engine::Engine;
use oneiros_engine::http::server::Server;
use oneiros_engine::logs::{HostLog, ProjectLog};

fn config() -> Config {
    Config {
        data_dir: "/data".into(),
        project: "atlas".into(),
        brain: "atlas-brain".into(),
        bookmark: "main".into(),
        service_url: "http://127.0.0.1:2100".into(),
    }
}

#[test]
fn host_log_client_talks_to_the_configured_service() {
    let log = HostLog::new(config());
    assert_eq!(log.config.project, "atlas");
    assert_eq!(log.client().url(), "http://127.0.0.1:2100");
    assert_eq!(config().base_url(), "http://127.0.0.1:2100");
}

#[test]
fn engine_and_server_keep_their_configuration() {
    let engine = Engine::new(config());
    assert_eq!(engine.config().data_dir, "/data");
    let server = Server::new(config());
    assert_eq!(server.config().bookmark, "main");
}

#[test]
fn project_log_names_its_brain() {
    let log = ProjectLog::new(config());
    assert_eq!(log.brain_name(), "atlas-brain");
    let copy = log.clone();
    assert_eq!(copy.config.service_url, "http://127.0.0.1:2100");
}

use oneiros_engine::engine::{choose_rendering, result_rendering, OutputMode, Rendering};

#[test]
fn results_render_as_asked_when_they_can() {
    assert_eq!(choose_rendering(OutputMode::Prompt, true, true), Rendering::Prompt);
    assert_eq!(choose_rendering(OutputMode::Prompt, false, true), Rendering::Json);
    assert_eq!(choose_rendering(OutputMode::Text, false, true), Rendering::Text);
    assert_eq!(choose_rendering(OutputMode::Text, true, false), Rendering::Json);
    assert_eq!(choose_rendering(OutputMode::Json, true, true), Rendering::Json);
}

#[test]
fn silent_results_write_nothing() {
    assert_eq!(result_rendering(true, OutputMode::Json, true, true), None);
    assert_eq!(result_rendering(true, OutputMode::Prompt, true, true), None);
    assert_eq!(
        result_rendering(false, OutputMode::Prompt, true, false),
        Some(Rendering::Prompt)
    );
    assert_eq!(result_rendering(false, OutputMode::Text, false, false), Some(Rendering::Json));
}
