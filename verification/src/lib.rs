//! Reach a machine's internal network from outside it.
//!
//! This crate is the logic of `ig`: what a port is backed by, who it is granted
//! to, what a running daemon answers, what it keeps across a restart, and how a
//! reply is shown.

pub mod addr;
pub mod autostart;
pub mod client;
pub mod control;
pub mod daemon;
pub mod enroll;
pub mod gateway;
pub mod grants;
pub mod json;
pub mod keys;
pub mod protocol;
pub mod schema;
pub mod service;
pub mod startup;
pub mod state;
pub mod text;
pub mod upgrade;
