//! A stdio-native MCP aggregator core: configuration validation, namespace
//! access control, credential templating, redaction and the decision logic
//! behind the three meta-tools.

pub mod advert;
pub mod capture;
pub mod check;
pub mod compose;
pub mod config;
pub mod credentials;
pub mod error;
pub mod forward;
pub mod handlers;
pub mod inheritance;
pub mod json;
pub mod laws;
pub mod lookup;
pub mod namespace;
pub mod process;
pub mod redact;
pub mod registry;
pub mod server;
pub mod text;
