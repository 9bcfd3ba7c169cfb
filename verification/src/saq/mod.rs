//! The Śaq daemon and its clients.

pub mod daemon;
pub mod eq;
pub mod gui;
pub mod mode;
