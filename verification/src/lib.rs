//! Account registration and authentication around a password-authenticated
//! key exchange: signed invitations, one-time protocol sessions, long-lived
//! authenticated sessions, and the key-value store they live in.

pub mod api;
pub mod base64;
pub mod codec;
pub mod config;
pub mod db;
pub mod invitation;
pub mod opaque;
pub mod password;
pub mod rng;
pub mod session;
pub mod storage;
pub mod text;
pub mod time;
pub mod user;
