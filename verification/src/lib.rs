//! Temporary cloud credentials for named profiles: the decisions behind
//! probing a session, logging in again, exchanging a role for credentials
//! and merging them into the credentials file.

pub mod aws;
pub mod config;
pub mod credentials;
pub mod error;
pub mod ini;
pub mod json;
pub mod run;
pub mod sts;
pub mod table;
pub mod text;
