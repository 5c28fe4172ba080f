//! Core logic of the ClawPal node bridge and its companion services.

pub mod bridge_client;
pub mod classify;
pub mod cli_runner;
pub mod clock;
pub mod config_io;
pub mod doctor;
pub mod frame;
pub mod handshake;
pub mod history;
pub mod invoke;
pub mod json;
pub mod logging;
pub mod models;
pub mod pending_map;
pub mod session;
pub mod ssh;
pub mod text;
