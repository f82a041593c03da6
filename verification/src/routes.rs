//! What each route of the gateway answers, from the values its handler reads.
pub mod health;
pub mod models;
pub mod providers;
pub mod chat;
pub mod responses;
pub mod codex;
pub mod ops;
pub mod governance;
