//! The Loom daemon and its clients.

pub mod ctl;
pub mod daemon;
pub mod engine;
pub mod gui;
pub mod mode;
pub mod routing;
pub mod routing_laws;
pub mod shutdown;
