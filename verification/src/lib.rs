//! Packet-capture manipulation: network traffic read from a capture is passed
//! through a pipeline of modifiers (delays, drops, fragmentation, reordering)
//! and the result is sorted by timestamp.

pub mod config;
pub mod duration;
pub mod flows;
pub mod flow_table;
pub mod packet;
pub mod rng;
pub mod techniques;
pub mod text;
pub mod tui;
