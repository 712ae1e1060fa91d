//! Drive small LED-matrix display modules attached over a serial link.
//!
//! The library covers the verified core of the system: the panel canvas
//! and the composition engine that merges widget bitmaps onto it, the
//! widget capability contract, placement validation against the panel
//! bounds, and the device wire protocol — command framing, the packed
//! 1-bit pattern encoding, the column-major brightness encoding with its
//! stage-then-commit draw, firmware version parsing, and the bounded
//! response wait. Device I/O, OS data sources and configuration parsing
//! sit outside the library and hand it plain values.

pub mod battery;
pub mod clock;
pub mod config;
pub mod cpu;
pub mod matrix;
pub mod network;
pub mod placement;
pub mod protocol;
pub mod widget;

use vstd::prelude::*;

verus! {

/// Number of LED columns on one panel.
pub const PANEL_WIDTH: usize = 9;

/// Number of LED rows on one panel.
pub const PANEL_HEIGHT: usize = 34;

} // verus!
