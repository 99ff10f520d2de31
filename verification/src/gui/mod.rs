//! The interface, on a machine with no window system.
//!
//! A header, three modes along the top (clock, stopwatch, timer), chips that
//! select what the lower panel reports, a large readout down the middle and a
//! status bar underneath. The corner where a desktop window puts minimise and
//! close holds restart and shut down instead.
//!
//! There is no timer interrupt: a handler running between two counter reads
//! becomes part of what the chronometer measures. The counter is the clock,
//! and everything that moves is a tween stepped once per frame.
//!
//! A frame is decided here and drawn by the caller: each part of the screen is
//! a list of drawing operations, and its contract says which.

pub mod bars;
pub mod canvas;
pub mod cursor;
pub mod cards;
pub mod frame;
pub mod header;
pub mod layout;
pub mod motion;
pub mod readout;
pub mod rows;
pub mod state;
pub mod tabs;
pub mod watch;
