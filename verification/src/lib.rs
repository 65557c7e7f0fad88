//! A screen locker for Wayland compositors: the session engine.
//!
//! The crate holds the rules of a lock session and proves them: how typed
//! keys move the session between its states, how each output's surface
//! reacts to protocol events, how a frame is painted pixel by pixel, and
//! when a crashed session is started again. Talking to the compositor, to
//! the operating system and to the font rasteriser is left to the program
//! that drives this library.

pub mod config;
pub mod lock;
pub mod strings;
pub mod supervisor;
