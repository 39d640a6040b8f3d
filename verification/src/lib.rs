//! Logic of a per-directory reminder tool.
//!
//! A reminder lives in a marker file named `.mmr`. The library decides which
//! ancestor directory's marker file a command acts on, whether a reminder is
//! old enough to be shown, and what bytes the file operations read and write.
//! All filesystem, clock and process work stays with the caller; the library
//! works on plain values and is verified.

pub mod age;
pub mod content;
pub mod editor;
pub mod errors;
pub mod resolve;

use vstd::prelude::*;

verus! {

/// The name of the marker file that holds the reminder text.
pub const MARKER_FILE_NAME: &'static str = ".mmr";

} // verus!
