//! Administrative content manager for a small catalog of symbol records
//! (glyphs, tones, kins), each carrying an image asset stored under a
//! generated file name. The library keeps the record store and the asset
//! store consistent across create, update and delete: an update without a
//! new image keeps the old file, an update with a new image deletes the
//! replaced file, and a delete removes both the row and its file.

pub mod assets;
pub mod errors;
pub mod glyph;
pub mod ingest;
pub mod kin;
pub mod laws;
pub mod pages;
pub mod records;
pub mod tone;
