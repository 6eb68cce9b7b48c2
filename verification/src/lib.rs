//! Verified core of an SSH agent whose identities come from configured key providers.

pub mod text;
pub mod order;
pub mod keys;
pub mod session;
pub mod platform;
pub mod serve;
pub mod agent;
pub mod models;
pub mod crypto;
pub mod auth;
pub mod vecs;
pub mod provider;
pub mod config;
pub mod cache;
