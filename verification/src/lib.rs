//! Verified core of the kikitori speech-input system: wire framing,
//! endpoint resolution, text post-processing, the VAD segment planner and
//! the pure decision logic of the engine daemon and its clients.

pub mod proto;
pub mod chars;
pub mod endpoint;
pub mod text;
pub mod replace;
pub mod overlay;
pub mod session;
pub mod cli;
pub mod segment;
pub mod payload;
pub mod daemon;
pub mod client;
pub mod display;
pub mod capture;
pub mod config;
pub mod toggle;
pub mod tool_args;
