//! The mount, driven through an INDI server.

pub mod client;
pub mod command;
pub mod error;
pub mod frame;
pub mod pier;
pub mod slew;
pub mod state;
pub mod steps;
pub mod xml;
