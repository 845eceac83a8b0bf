//! Core of an editor plug-in that drives a command line assistant.
//!
//! The library decides; what it decides on (processes, terminals, windows, the host's callback
//! objects) lives with its caller, which performs what it is asked for and reports what came of it.
//!
//! - [`chat`] and [`turn`] run conversations, and [`events`] follows what the assistant writes.
//! - [`pty`] runs terminal sessions.
//! - [`entry`], [`window`] and [`debug`] hold what the native entry points make of their arguments.
//! - [`callback`], [`environment`], [`json`] and [`text`] are what the others are built from.

pub mod callback;
pub mod chat;
pub mod debug;
pub mod entry;
pub mod environment;
pub mod events;
pub mod json;
pub mod pty;
pub mod text;
pub mod turn;
pub mod window;
