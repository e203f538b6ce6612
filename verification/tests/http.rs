use oneiros_engine::config::Config;
use oneiros_engine::http::auth::{
    auth_step, bearer_token, is_public_path, AuthError, AuthStep, VerifiedSession,
};
use oneiros_engine::http::scope::{query_bookmark, resolve_bookmark, scoped_config, session_project};

#[test]
fn public_paths_skip_authentication() {
    for path in ["/", "/health", "/docs", "/api.json", "/docs/", "/docs/x", "/mcp", "/mcp/s"] {
        assert!(is_public_path(path), "{path}");
    }
    for path in ["", "/healthz", "/doc", "/api", "/projects", "/dashboard"] {
        assert!(!is_public_path(path), "{path}");
    }
}

#[test]
fn bearer_token_is_what_follows_the_scheme() {
    assert_eq!(bearer_token(Some("Bearer abc.def")), Some("abc.def".to_string()));
    assert_eq!(bearer_token(Some("Bearer ")), Some(String::new()));
    assert_eq!(bearer_token(Some("bearer abc")), None);
    assert_eq!(bearer_token(Some("Basic abc")), None);
    assert_eq!(bearer_token(None), None);
}

#[test]
fn auth_step_passes_public_paths_and_verifies_tokens() {
    assert!(matches!(auth_step("/health", None), AuthStep::Pass));
    assert!(matches!(
        auth_step("/projects", None),
        AuthStep::Reject(AuthError::NoAuthHeader)
    ));
    assert!(matches!(
        auth_step("/projects", Some("Token x")),
        AuthStep::Reject(AuthError::NoAuthHeader)
    ));
    match auth_step("/projects", Some("Bearer t0k")) {
        AuthStep::Verify(token) => assert_eq!(token, "t0k"),
        other => panic!("expected a verification, got {other:?}"),
    }
}

#[test]
fn auth_errors_answer_with_status_and_message() {
    assert_eq!(AuthError::NoAuthHeader.status(), 401);
    assert_eq!(AuthError::InvalidToken.status(), 401);
    assert_eq!(AuthError::Database("db".into()).status(), 500);
    assert_eq!(AuthError::Event("ev".into()).status(), 500);
    assert_eq!(AuthError::NoAuthHeader.message(), "Missing authorization header");
    assert_eq!(AuthError::InvalidToken.message(), "Invalid or expired token");
    assert_eq!(AuthError::Event("ev".into()).message(), "ev");
}

#[test]
fn query_names_the_first_bookmark_pair() {
    assert_eq!(query_bookmark("bookmark=dev"), Some("dev".to_string()));
    assert_eq!(
        query_bookmark("a=1&bookmark=x&bookmark=y"),
        Some("x".to_string())
    );
    assert_eq!(query_bookmark("bookmark="), Some(String::new()));
    assert_eq!(query_bookmark("a=1&b=2"), None);
    assert_eq!(query_bookmark(""), None);
    assert_eq!(query_bookmark("xbookmark=1&&"), None);
}

#[test]
fn bookmark_comes_from_header_then_query_then_active_then_main() {
    assert_eq!(
        resolve_bookmark(Some("h"), Some("bookmark=q"), Some("active".into())),
        "h"
    );
    assert_eq!(
        resolve_bookmark(None, Some("bookmark=q"), Some("active".into())),
        "q"
    );
    assert_eq!(resolve_bookmark(None, Some("x=1"), Some("active".into())), "active");
    assert_eq!(resolve_bookmark(None, None, None), "main");
}

#[test]
fn bookmark_routes_need_a_project_session() {
    assert!(matches!(session_project(None), Err(AuthError::NoAuthHeader)));
    assert!(matches!(
        session_project(Some(&VerifiedSession::Host)),
        Err(AuthError::InvalidToken)
    ));
    let session = VerifiedSession::Project {
        project_name: "atlas".to_string(),
    };
    assert_eq!(session_project(Some(&session)).unwrap(), "atlas");
}

#[test]
fn request_config_takes_project_and_bookmark() {
    let base = Config {
        data_dir: "/data".into(),
        project: "main-project".into(),
        brain: "b".into(),
        bookmark: "main".into(),
        service_url: "http://127.0.0.1:2100".into(),
    };
    let c = scoped_config(&base, "atlas".into(), "dev".into());
    assert_eq!(c.project, "atlas");
    assert_eq!(c.bookmark, "dev");
    assert_eq!(c.data_dir, "/data");
    assert_eq!(c.service_url, base.service_url);
}

use oneiros_engine::http::auth::{project_session, TicketFacts, TokenClaims};

fn ticket(actor: &str, project: &str, valid: bool) -> TicketFacts {
    TicketFacts {
        actor_id: actor.into(),
        project_id: project.into(),
        project_name: "atlas".into(),
        valid,
    }
}

#[test]
fn project_token_grants_its_tickets_project() {
    let claims = TokenClaims {
        actor_id: "a1".into(),
        project_id: "p1".into(),
    };
    match project_session(Some(&claims), Some(&ticket("a1", "p1", true))) {
        Ok(VerifiedSession::Project { project_name }) => assert_eq!(project_name, "atlas"),
        other => panic!("expected a project session, got {other:?}"),
    }
    assert!(matches!(
        project_session(Some(&claims), Some(&ticket("a2", "p1", true))),
        Err(AuthError::InvalidToken)
    ));
    assert!(matches!(
        project_session(Some(&claims), Some(&ticket("a1", "p2", true))),
        Err(AuthError::InvalidToken)
    ));
    assert!(matches!(
        project_session(Some(&claims), Some(&ticket("a1", "p1", false))),
        Err(AuthError::InvalidToken)
    ));
    assert!(matches!(
        project_session(Some(&claims), None),
        Err(AuthError::InvalidToken)
    ));
    assert!(matches!(
        project_session(None, Some(&ticket("a1", "p1", true))),
        Err(AuthError::InvalidToken)
    ));
}
