//! The decisions behind the web layer: authentication, login, the hello page and
//! the mapping of service errors to client errors.
pub mod hello;
pub mod middleware_auth;
pub mod response_mapper;
pub mod routes_login;

use vstd::prelude::*;

verus! {

/// The name of the cookie that carries the authentication token.
pub const AUTH_TOKEN: &'static str = "auth-token";

/// The text of an optional string.
pub open spec fn opt_text(o: Option<String>) -> Option<Seq<char>> {
    match o {
        Some(s) => Some(s@),
        None => None,
    }
}

} // verus!
