//! Routing of OpenAI-compatible requests across authenticated Codex accounts.

pub mod accounts;
pub mod admin;
pub mod body;
pub mod cli;
pub mod clock;
pub mod config;
pub mod course;
pub mod downstream;
pub mod errors;
pub mod headers;
pub mod ids;
pub mod installation;
pub mod json;
pub mod logins;
pub mod models;
pub mod paths;
pub mod proxy;
pub mod proxy_auth;
pub mod ranking;
pub mod registry;
pub mod request_headers;
pub mod routing;
pub mod selection;
pub mod string_map;
pub mod text;
pub mod upstream;
