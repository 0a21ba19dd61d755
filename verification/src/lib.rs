//! Session-token and cache-coherence core of a task/board service.
//!
//! The library has three layers: a stateless, self-verifying session-token
//! scheme with sliding expiration (`token`, `authenticator`, `verification`),
//! a cache-aside store with per-entry expiration (`cache`), and an
//! ownership-scoped gateway to the records of the application (`store`).
//! The request handlers in `users_managing`, `boards_managing` and
//! `tasks_managing` tie the layers together; everything they decide is
//! stated in their contracts.

pub mod app_config;
pub mod authenticator;
pub mod boards_managing;
pub mod cache;
pub mod convertations;
pub mod models;
pub mod numfmt;
pub mod store;
pub mod tasks_managing;
pub mod token;
pub mod tools;
pub mod users_managing;
pub mod verification;
