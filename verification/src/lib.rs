//! Verified core of the Rizline chart player: colour themes, combo scoring,
//! searches over time-ordered chart data, command-line handling, encoder
//! selection, frame conversion and the small state machines that the
//! platform front ends drive.

pub mod color;
pub mod combo;
pub mod search;
pub mod order;
pub mod rng;
pub mod inbox;
pub mod picker;
pub mod text;
pub mod cli;
pub mod encoder;
pub mod frame;
pub mod challenge;
pub mod wav;
pub mod files;
