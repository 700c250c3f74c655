//! A server-side session and authentication layer: it turns a one-time
//! OAuth2 authorization code into a durable, silently renewable login
//! session, and gates resource handlers behind that session.
//!
//! The crate models the credential store (users, sessions, refresh tokens)
//! and the shader store as verified in-memory relations; the cookie codec
//! calls into the `cookie` crate behind trusted wrappers. Network and
//! database transports live outside the library and hand it plain values.

pub mod codec;
pub mod constants;
pub mod env;
pub mod errors;
pub mod expiry;
pub mod logger;
pub mod login;
pub mod profile;
pub mod refresh;
pub mod session;
pub mod shaders;
pub mod store;
pub mod urls;
