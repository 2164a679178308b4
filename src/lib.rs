//! Request-processing core of a multi-tenant chat service: request
//! authentication and chat authorization decisions, request tagging and
//! timing values, and a content-addressed file store.

pub mod auth;
pub mod chat;
pub mod error;
pub mod file;
pub mod handlers;
pub mod request_id;
pub mod server_time;
pub mod text;

