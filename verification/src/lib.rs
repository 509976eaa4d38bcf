//! Request handling core of the patchify package server: configuration,
//! authentication flags, session bookkeeping and the flatbuffer wire
//! messages exchanged with clients.

pub mod errors;
pub mod wire;
pub mod auth;
pub mod config;
pub mod session_manager;
pub mod package_resolver;
pub mod request_handler;
