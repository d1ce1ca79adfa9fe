//! Verified core of a desktop browser for recorded Codex CLI sessions.
pub mod browser;
pub mod json;
pub mod role;
pub mod scan;
pub mod session;
pub mod text;
pub mod time;
pub mod title;
