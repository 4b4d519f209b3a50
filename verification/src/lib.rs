//! Live peer-diff subsystem of a text editor.
//!
//! Two open documents can be paired so that each one's diff view compares
//! its live content against the *current* content of the other. Editing
//! either side pushes the new text into the peer's [`diff_handle::DiffHandle`]
//! as a fresh diff base and requests an asynchronous hunk recomputation;
//! a generation counter discards results that arrive for an outdated base.
//! Closing either side clears the surviving document's link.
//!
//! The editor state and every transition on it (pairing, edits, closes,
//! recompute completion) are specified in [`model`] and proved in [`laws`].

pub mod diff_handle;
pub mod document;
pub mod editor;
pub mod laws;
pub mod model;
