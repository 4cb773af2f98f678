//! A verified save-data model for a survival game's on-disk save state.
//!
//! A save is a small set of JSON documents.  Each structured entity keeps a
//! fixed set of known fields and carries every other field of the source
//! document through unchanged (an "elastic" record), one field of the parent
//! document holds a whole nested JSON document encoded as a string, and a
//! health field may spell `NaN` as the literal string `"NaN"`.  On top of the
//! codec sit lookups by actor type id and the guarded "is dead" /
//! "resurrect" operations.

pub mod error;
pub mod fields;
pub mod game_state;
pub mod inventory;
pub mod json;
pub mod numtext;
pub mod save;
pub mod save_data;
pub mod text;
pub mod tools;
