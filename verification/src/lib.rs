//! Request-gating core for a multi-user service: bearer-token issuance and
//! validation, idle-session tracking, and per-client rate limiting, composed
//! into a single allow/deny guard that runs before any protected handler.
pub mod errors;
pub mod token;
pub mod session;
pub mod rate_limit;
pub mod gate;
pub mod password;
pub mod account;
pub mod models;
pub mod decimal;
pub mod avatar;
