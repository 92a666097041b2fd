//! Core logic of a handheld-board firmware, kept free of any hardware
//! dependency so that it can be stated and proved on its own:
//!
//! - [`life`]: a toroidal Game-of-Life engine that drives a pixel display;
//! - [`tilt`]: a debounced tilt-position tracker that drives a short LED strip;
//! - [`ccbuf`]: reader and writer proxies for a timer counter/compare buffer
//!   register field.

pub mod ccbuf;
pub mod life;
pub mod tilt;
