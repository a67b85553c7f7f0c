pub mod buffer;
pub mod config;
pub mod error;
pub mod plan;
pub mod session;
