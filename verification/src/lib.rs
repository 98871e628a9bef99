//! Character encoding and bit packing for a multiplexed seven-segment LCD.
//!
//! The wiring of the panel puts every segment of every digit cell on one bit
//! of one COM line ([`segment`]). A glyph is the set of segments that it
//! lights ([`pattern`]), and a table gives the glyph of each character that
//! the display can show ([`glyph`]). The frame buffer accumulates the bits of
//! the digit cells in one bitmask per COM line ([`frame`]), and a text is
//! scrolled through the cells one window at a time ([`scroll`]).

pub mod bits;
pub mod segment;
pub mod pattern;
pub mod glyph;
pub mod frame;
pub mod scroll;
