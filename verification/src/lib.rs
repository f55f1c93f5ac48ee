//! A terminal-pane text plucker: captures pane text, filters candidate
//! substrings with a regular expression, and drives a fuzzy-finder session
//! whose outcome is copying or re-inserting the chosen text.
//!
//! The library holds the logic: the configuration record and its invariant,
//! the line filter, the version handling that picks how to open the popup,
//! and the selection-session state machine. Process spawning and file
//! reading live outside it and hand it plain values.

pub mod config;
pub mod filter;
pub mod session;
pub mod text;
pub mod version;
