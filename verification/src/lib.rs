//! Core of a keyboard firmware runtime: debouncing of raw matrix samples,
//! layer-stack action resolution (momentary, toggle, one-shot, tap-hold),
//! HID report aggregation with rollover, a bounded ordered report channel,
//! the transport connection lifecycle, and parsing of a declarative keymap
//! configuration into actions.

pub mod keycode;
pub mod action;
pub mod config;
pub mod layout;
pub mod layer;
pub mod debounce;
pub mod keyboard;
pub mod dispatch;
pub mod persist;
pub mod report;
pub mod channel;
