//! A small time-tracking service library.
//!
//! Users sign up, log in, and start/stop timed work sessions ("timelogs").
//! Persistence is delegated to a REST backend reached over HTTP; this crate
//! holds the verified core: the query-string builder for the backend's filter
//! language, the request/response mapping, form and input validation,
//! password-hash and bearer-token handling, and the per-request routing and
//! session decisions. The HTTP transport and the HTML views live outside the
//! library.

pub mod errors;
pub mod types;
pub mod strutil;
pub mod query;
pub mod db;
pub mod memdb;
pub mod auth;
pub mod session;
pub mod routing;
pub mod jsonout;
pub mod rest;
pub mod form;
pub mod clock;

