//! Request filtering by rules written in the Common Expression Language.
//!
//! The library holds the logic of a request guard: it normalises what the host
//! reports about a request, resolves the client address, runs the configured
//! rules in order and says which action answers the request.

pub mod text;
pub mod address;
pub mod request;
pub mod lexer;
pub mod engine;
pub mod config;
pub mod reply;
pub mod matcher;
pub mod agent;
