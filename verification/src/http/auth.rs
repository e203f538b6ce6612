//! Bearer-token authentication: which paths are public, how the token is
//! read from the `Authorization` header, and how failures are answered.
use vstd::prelude::*;

use crate::text::{chars_of, has_prefix, push_str, same_text, starts_with};

verus! {

/// Why a request was not authenticated.
#[derive(Debug)]
pub enum AuthError {
    /// The request carries no `Authorization: Bearer` header.
    NoAuthHeader,
    /// The token is not valid, or has expired.
    InvalidToken,
    /// Looking the token up failed in the database; the text describes it.
    Database(String),
    /// Looking the token up failed in the event store; the text describes
    /// it.
    Event(String),
}

impl AuthError {
    /// The human-readable description of this error.
    pub fn message(&self) -> (r: String)
        ensures
            r@ == match self {
                AuthError::NoAuthHeader => "Missing authorization header"@,
                AuthError::InvalidToken => "Invalid or expired token"@,
                AuthError::Database(t) => t@,
                AuthError::Event(t) => t@,
            },
    {
        let mut s = String::new();
        match self {
            AuthError::NoAuthHeader => push_str(&mut s, "Missing authorization header"),
            AuthError::InvalidToken => push_str(&mut s, "Invalid or expired token"),
            AuthError::Database(t) => push_str(&mut s, t.as_str()),
            AuthError::Event(t) => push_str(&mut s, t.as_str()),
        }
        s
    }

    /// The HTTP status this error is answered with: 401 when the caller
    /// failed to authenticate, 500 when the lookup itself failed.
    pub fn status(&self) -> (r: u16)
        ensures
            r == (if self is NoAuthHeader || self is InvalidToken {
                401u16
            } else {
                500u16
            }),
    {
        match self {
            AuthError::NoAuthHeader | AuthError::InvalidToken => 401,
            AuthError::Database(_) | AuthError::Event(_) => 500,
        }
    }
}

/// What a verified token grants.
#[derive(Debug)]
pub enum VerifiedSession {
    /// A host-level token: host-scoped routes.
    Host,
    /// A project token: the routes of this project (and host-scoped ones).
    Project { project_name: String },
}

/// Whether a request path is public: one of `/`, `/health`, `/docs` and
/// `/api.json`, or under `/docs/` or `/mcp`.
pub open spec fn is_public(path: Seq<char>) -> bool {
    ||| path == "/"@
    ||| path == "/health"@
    ||| path == "/docs"@
    ||| path == "/api.json"@
    ||| has_prefix(path, "/docs/"@)
    ||| has_prefix(path, "/mcp"@)
}

/// Whether `path` is public.
pub fn is_public_path(path: &str) -> (r: bool)
    ensures
        r == is_public(path@),
{
    same_text(path, "/") || same_text(path, "/health") || same_text(path, "/docs") || same_text(
        path,
        "/api.json",
    ) || starts_with(path, "/docs/") || starts_with(path, "/mcp")
}

/// The token of an `Authorization` header value: what follows `Bearer `.
pub open spec fn bearer_of(header: Option<Seq<char>>) -> Option<Seq<char>> {
    match header {
        Some(h) => if has_prefix(h, "Bearer "@) {
            Some(h.subrange("Bearer "@.len() as int, h.len() as int))
        } else {
            None
        },
        None => None,
    }
}

/// The bearer token of an `Authorization` header value, if it is one.
pub fn bearer_token(header: Option<&str>) -> (r: Option<String>)
    ensures
        match r {
            Some(t) => bearer_of(
                match header {
                    Some(h) => Some(h@),
                    None => None,
                },
            ) == Some(t@),
            None => bearer_of(
                match header {
                    Some(h) => Some(h@),
                    None => None,
                },
            ) is None,
        },
{
    match header {
        None => None,
        Some(h) => {
            if !starts_with(h, "Bearer ") {
                return None;
            }
            let chars = chars_of(h);
            let prefix = chars_of("Bearer ");
            let mut token = String::new();
            let mut i: usize = prefix.len();
            proof {
                assert(chars@.subrange(prefix@.len() as int, prefix@.len() as int) =~= Seq::<
                    char,
                >::empty());
            }
            while i < chars.len()
                invariant
                    prefix@ == "Bearer "@,
                    chars@ == h@,
                    prefix@.len() <= i <= chars@.len(),
                    token@ == chars@.subrange(prefix@.len() as int, i as int),
                decreases chars@.len() - i,
            {
                token.push(chars[i]);
                proof {
                    assert(chars@.subrange(prefix@.len() as int, i + 1) =~= chars@.subrange(
                        prefix@.len() as int,
                        i as int,
                    ).push(chars@[i as int]));
                }
                i += 1;
            }
            Some(token)
        },
    }
}

/// What the authentication layer does with a request.
#[derive(Debug)]
pub enum AuthStep {
    /// Let it through unauthenticated: the path is public.
    Pass,
    /// Answer it with this error.
    Reject(AuthError),
    /// Verify this bearer token, then let it through with the session.
    Verify(String),
}

/// The authentication step for a request to `path` whose `Authorization`
/// header reads `header` (`None` when it is missing or not text): public
/// paths pass, a bearer token is verified, anything else is rejected for
/// want of a header.
pub fn auth_step(path: &str, header: Option<&str>) -> (r: AuthStep)
    ensures
        is_public(path@) ==> r is Pass,
        !is_public(path@) ==> match bearer_of(
            match header {
                Some(h) => Some(h@),
                None => None,
            },
        ) {
            Some(t) => r matches AuthStep::Verify(token) && token@ == t,
            None => r matches AuthStep::Reject(e) && e is NoAuthHeader,
        },
{
    if is_public_path(path) {
        return AuthStep::Pass;
    }
    match bearer_token(header) {
        Some(token) => AuthStep::Verify(token),
        None => AuthStep::Reject(AuthError::NoAuthHeader),
    }
}

/// What a decoded project token claims: the actor and project it was
/// issued for.
#[derive(Debug)]
pub struct TokenClaims {
    pub actor_id: String,
    pub project_id: String,
}

/// The stored ticket a project token is looked up by.
#[derive(Debug)]
pub struct TicketFacts {
    pub actor_id: String,
    pub project_id: String,
    pub project_name: String,
    /// Whether the ticket is still valid (not expired, not revoked).
    pub valid: bool,
}

/// The session a project token grants: the project of its ticket, when
/// the token decodes (`claims` is `Some`), a ticket is stored for it
/// (`ticket` is `Some`), the ticket was issued to the same actor and
/// project as the token claims, and it is still valid; otherwise the token
/// is invalid.
pub fn project_session(claims: Option<&TokenClaims>, ticket: Option<&TicketFacts>) -> (r: Result<
    VerifiedSession,
    AuthError,
>)
    ensures
        match (claims, ticket) {
            (Some(c), Some(t)) => if c.actor_id@ == t.actor_id@ && c.project_id@ == t.project_id@
                && t.valid {
                r matches Ok(VerifiedSession::Project { project_name }) && project_name@
                    == t.project_name@
            } else {
                r matches Err(e) && e is InvalidToken
            },
            _ => r matches Err(e) && e is InvalidToken,
        },
{
    let claims = match claims {
        Some(c) => c,
        None => return Err(AuthError::InvalidToken),
    };
    let ticket = match ticket {
        Some(t) => t,
        None => return Err(AuthError::InvalidToken),
    };
    if ticket.actor_id != claims.actor_id || ticket.project_id != claims.project_id {
        return Err(AuthError::InvalidToken);
    }
    if !ticket.valid {
        return Err(AuthError::InvalidToken);
    }
    Ok(VerifiedSession::Project { project_name: ticket.project_name.clone() })
}

} // verus!
