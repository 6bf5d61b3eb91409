//! Configuration logic for PipeWire / WirePlumber / ALSA audio setups:
//! device list parsing, configuration file generation and the decisions
//! that drive applying settings, each with a verified contract.

pub mod text;
pub mod audio;
pub mod config;
pub mod apply;
pub mod paths;
pub mod ui;
pub mod monitor;
pub mod links;
pub mod inspector;
pub mod laws;
