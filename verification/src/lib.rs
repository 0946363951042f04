//! Core of a modal, terminal-based text editor: a gap buffer for cheap local
//! edits, a trie-based command interpreter that resolves input atoms into
//! actions, and the modal state machine that ties them together.
//!
//! Terminal setup, event reading and rendering are external collaborators;
//! this crate holds the in-memory editing logic only.

pub mod cursor;
pub mod editor;
pub mod editor_buffer;
pub mod editor_state;
pub mod gap_buffer;
pub mod motion_interpreter;
pub mod setup_motions;
