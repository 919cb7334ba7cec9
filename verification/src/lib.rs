//! Gloss, an assistant for reading and writing English: it captures the text that is
//! selected in another app, shows a toolbar next to it, and holds a conversation about
//! the text with a language model.
//!
//! This crate is what Gloss decides and computes. What it reads from the system and
//! does to it is left to the program around it, which hands in plain values and gets
//! plain values back.
//!
//! - [`sessions`] holds conversations and what changes them, [`request`] and
//!   [`prompts`] what is sent for the next answer, [`history`] and [`files`] how
//!   conversations are kept, and [`preview`] how they are listed.
//! - [`selection`], [`copying`] and [`clipboard`] capture the selected text.
//! - [`overlay`], [`geometry`] and [`menu`] decide what is shown and where.
//! - [`json`], [`ids`], [`clock`] and [`text`] serve the others.

pub mod clipboard;
pub mod clock;
pub mod copying;
pub mod files;
pub mod geometry;
pub mod history;
pub mod ids;
pub mod json;
pub mod menu;
pub mod overlay;
pub mod preview;
pub mod prompts;
pub mod request;
pub mod selection;
pub mod sessions;
pub mod text;
