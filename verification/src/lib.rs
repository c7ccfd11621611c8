//! A human-verification gate: a caller earns a time-limited humanity token by
//! solving a fixed sequence of visual pattern challenges, and may publish a
//! short text post while the token is valid.
//!
//! The library is pure state-machine logic: every operation takes the caller's
//! identity and the current time as plain values, so the host platform
//! (which resolves the caller and reads the clock) stays outside.

pub mod challenge;
pub mod errors;
pub mod kv;
pub mod post;
pub mod protocol;
pub mod session;
pub mod text;
pub mod token;
pub mod verified;
