//! Core engine for synchronizing an authoritative simulation between one
//! server and many clients: tick-indexed snapshot buffering, client-side
//! prediction, server reconciliation and remote-entity interpolation.
//!
//! All world quantities are fixed-point integers in milli-units, so that the
//! simulation step is bit-for-bit reproducible on client and server.

pub mod buffer;
pub mod components;
pub mod config;
pub mod error;
pub mod events;
pub mod fixed;
pub mod game;
pub mod interp;
pub mod predictor;
pub mod registry;
pub mod server;
pub mod sim;
