//! Tickets service core: the request context, the service's errors and what clients
//! see of them, the ticket store, the authentication token format and the decisions
//! of the web layer, each with its contract.
pub mod appctx;
pub mod error;
pub mod log;
pub mod model;
pub mod web;

pub use appctx::AppCtx;
pub use error::{ClientError, Error};
