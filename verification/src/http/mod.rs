//! Request handling decisions of the HTTP surface: authentication and
//! bookmark resolution.
pub mod auth;
pub mod scope;
pub mod server;
