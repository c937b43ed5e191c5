//! Decisions behind the generated handler and controller code.

pub mod handlers;
pub mod impl_block;
pub mod ws;
pub mod controller_impl;
pub mod decorators;
