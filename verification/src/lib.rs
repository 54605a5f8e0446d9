//! Passive TCP flow reassembly: per-connection state tracking and
//! per-direction byte-stream reconstruction from captured frames.
//!
//! A [`connections::Connections`] registry takes in captured frames one by
//! one. It reads each frame ([`segment`]), finds the connection of its two
//! endpoints ([`conn`]), moves the state of the connection on by the flags
//! of the segment, and puts the payload at its place in the buffer of its
//! direction ([`flow_buff`]). What holds of all this on every input is
//! stated and proved in [`laws`].

pub mod flow_buff;
pub mod segment;
pub mod utils;
pub mod conn;
pub mod connections;
pub mod laws;
