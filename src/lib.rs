//! Connection planning and session control for a database profiling client.

pub mod address;
pub mod text;
pub mod config;
pub mod session;
pub mod driver;
