//! A small authentication library: password hashing, a signed bearer-token
//! format, credential checking against a user store, and the request-gating
//! decision of the middleware that protects routes.

pub mod auth;
pub mod codec;
pub mod config;
pub mod files;
pub mod handler;
pub mod middleware;
pub mod models;
pub mod password;
pub mod store;
