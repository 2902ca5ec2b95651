//! Window & settings orchestration engine for a small desktop shell that
//! hosts a handful of web applications as native windows ("tabs"), plus a
//! notes panel.
//!
//! The library owns the configuration record and every decision the shell
//! makes: which surfaces to create or close when the website list changes,
//! which surface to show when a tab is activated, how the notes panel moves
//! through its display modes, what the application menu must contain, how a
//! symbolic command identifier is routed, when a delayed paste is scheduled,
//! and how the configuration is written to and read back from its on-disk
//! JSON document.  Everything that touches the window toolkit or the file
//! system stays outside: callers hand plain values in and carry plans out.

pub mod autopaste;
pub mod codec;
pub mod dispatch;
pub mod json;
pub mod menu;
pub mod notes;
pub mod registry;
pub mod settings;
pub mod store;
pub mod text;
