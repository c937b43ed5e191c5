//! Attribute extraction, organized by domain.

pub mod async_exec;
pub mod consumer;
pub mod docs;
pub mod duration;
pub mod managed;
pub mod plugins;
pub mod route;
pub mod scheduled;
