//! The pill: the small overlay that shows what a dictation is doing.
pub mod bar;
pub mod fullscreen;
pub mod geom;
pub mod hook;
pub mod icons;
pub mod kept;
pub mod label;
pub mod ladder;
pub mod monitor;
pub mod picture;
pub mod render;
pub mod state;
pub mod text;
pub mod window;

use vstd::prelude::*;

verus! {

/// The gap between the pill's window and the bottom of its home monitor's work
/// area, in logical pixels.
pub const PILL_BOTTOM_MARGIN: u32 = 20;

/// How many bars the waveform has.
pub const BAR_COUNT: usize = 7;

/// The width of the pill's window, in logical pixels: enough for every mode.
pub const ENVELOPE_W: u32 = 124;

/// The height of the pill's window, in logical pixels: the pill's own band and, above
/// it, room for the label.
pub const ENVELOPE_H: u32 = 64;

/// The height of the band at the bottom of the window in which the pill is drawn, in
/// logical pixels: enough for every mode.
pub const PILL_BAND_H: u32 = 36;

} // verus!
