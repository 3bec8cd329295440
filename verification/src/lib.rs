//! Chunk list underlying a source-text rewriting engine.
//!
//! An original text buffer is split into an ordered sequence of
//! non-overlapping spans ("chunks").  Each chunk can independently acquire
//! prepended (`intro`) and appended (`outro`) text and replacement
//! `content`, while the list stays traversable in original textual order
//! and can be reassembled into the final output.
//!
//! The chunks live in an arena ([`chunk::ChunkList`]) and name their
//! neighbours by arena index, so every navigation step is a bounds-checked
//! array access.

pub mod chunk;
