//! Driver logic for an SPI-attached WiFi/TCP co-processor that is controlled
//! with CR-terminated ASCII commands.
//!
//! The crate holds every decision of the driver: how bytes are laid out on the
//! SPI link, which commands make up an operation, how the module's replies are
//! read, and how the four sockets move through their states. It never touches
//! hardware. Each operation is a state machine that names the next hardware
//! action; the embedding program performs the action and reports what
//! happened.

pub mod action;
pub mod adapter;
pub mod arbiter;
pub mod buffer;
pub mod command;
pub mod decimal;
pub mod ingress;
pub mod network;
pub mod parser;
pub mod protocol;
pub mod ready;
pub mod script;
pub mod socket;
pub mod transport;
pub mod wire;
