//! The touch timing scope: a trace of presses and releases with figures about them.

pub mod drawing;
pub mod frame;
pub mod layout;
pub mod metrics;
pub mod picture;
pub mod scope_loop;
pub mod sweep;
