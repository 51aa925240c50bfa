//! Verified core of a beatmap-folder cloning tool.
//!
//! A beatmap folder holds one or more chart files in a line-oriented,
//! section-delimited text format plus shared media assets.  This crate
//! holds the verified logic of the cloning engine: the field scraper, the
//! skin-asset filename classifier, the timing-point compressor, the
//! section rewriter, and the pure planning steps of the clone
//! orchestrator (folder numbering, name sanitizing, asset selection).
//! All file-system work stays outside the crate; callers hand the
//! functions plain text and get plain text back.

pub mod listing;
pub mod model;
pub mod num;
pub mod plan;
pub mod parser;
pub mod rewrite;
pub mod skin;
pub mod text;
pub mod timing;
