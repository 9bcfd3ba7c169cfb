//! Control logic of the Loom and Śaq audio enhancers: processing modes,
//! equalizer presets and curves, daemon state, IPC bookkeeping, PipeWire
//! routing and audio-callback decisions, and reading WAVE files, each stated
//! with a contract and proved.

pub mod ipc;
pub mod level;
pub mod loom;
pub mod saq;
pub mod single;
pub mod standalone;
pub mod text;
pub mod wav;
