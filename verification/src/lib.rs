//! Dual-speed cursor flight for a tiling window manager.
//!
//! The crate holds the decisions of the flight controller: when the tracked
//! pointer switches between its fast and its slow acceleration, when the
//! cursor is thrown back into the focused window, and which wobble is drawn
//! afterwards. Everything is a function from plain values to plain values;
//! the caller owns the device stream and the window manager connection and
//! performs the actions that the controller hands back.
//!
//! - [`control`] is the controller itself: its state, the events it takes
//!   and the actions it decides on.
//! - [`animator`] yields the wobble.
//! - [`window`] finds the focused window in the container tree and the point
//!   in it to which the cursor is thrown; [`offsets`] holds the corrections
//!   of that point for single applications.
//! - [`statement`] words the controller's commands for the window manager.
//! - [`arguments`] completes the settings of a session, with the help of
//!   [`devices`], which finds the touchpad in a listing of input devices.
//! - [`text`] reads and writes characters and decimal numbers.

pub mod animator;
pub mod arguments;
pub mod control;
pub mod devices;
pub mod offsets;
pub mod statement;
pub mod text;
pub mod window;
