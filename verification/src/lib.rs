//! A verified core for an OpenAI-compatible gateway that fronts OpenClaw and a pool of
//! Codex accounts.
pub mod text;
pub mod transport;
pub mod scan;
pub mod clock;
pub mod quota;
pub mod session;
pub mod admission;
pub mod json;
pub mod bridge;
pub mod adapter;
pub mod domain;
pub mod repos;
pub mod governance;
pub mod observability;
pub mod routing;
pub mod executor;
pub mod registration;
pub mod config;
pub mod pool;
pub mod errors;
pub mod providers;
pub mod middleware;
pub mod routes;
pub mod dispatch;
