//! Vanguard: the verified core of a small server-rendered web framework.
pub mod text;
pub mod router;
pub mod rate_limit;
pub mod encoding;
pub mod claims;
pub mod auth;
pub mod response;
pub mod view;
pub mod state;
pub mod server;
pub mod static_files;
pub mod ws;
pub mod pages;
pub mod site;
