//! Verified core of the authentication and student-records service.
pub mod clock;
pub mod config;
pub mod roles;
pub mod text;
pub mod mfa;
pub mod repositories;
pub mod progress;
pub mod scores;
pub mod users;
pub mod ids;
pub mod auth;
pub mod datetime;
pub mod stats;
pub mod requests;
pub mod http_log;
pub mod messages;
pub mod documents;
pub mod access;
pub mod profile;
pub mod rpc;
pub mod upload;
