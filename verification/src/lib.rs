//! A calculator over one 8-bit value, driven by a line protocol.
//!
//! A request line is parsed into an [`operation::Operation`], applied to a
//! [`calculator::Calculator`], and the outcome is rendered as a
//! [`response::Response`] line. Every step is a total function with a
//! machine-checked contract.

pub mod calculator;
pub mod client;
pub mod errors;
pub mod operation;
pub mod response;
pub mod server;
pub mod text;
