//! A tiling window manager core: a verified event-driven state machine that
//! owns per-workspace window lists, resolves key bindings, accounts for
//! panel struts, and computes tiling geometry. All display-server I/O is
//! expressed as plain command values that a thin shell executes.

pub mod bindings;
pub mod cfg;
pub mod config;
pub mod geometry;
pub mod keymap;
pub mod struts;
pub mod wm;
pub mod xkeys;

use vstd::prelude::*;

verus! {

/// A window handle assigned by the display server; opaque to this crate.
pub type WindowId = u32;

} // verus!
