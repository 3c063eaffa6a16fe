//! Telemetry sampling and rolling aggregation for a desktop vitals widget.

pub mod cache;
pub mod color;
pub mod command;
pub mod config;
pub mod cpu;
pub mod disk;
pub mod message;
pub mod network;
pub mod processes;
pub mod ranking;
pub mod ring;
pub mod sampler;
pub mod scan;
pub mod schedule;
pub mod text;
pub mod weather;
