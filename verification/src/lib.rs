//! A small library for inspecting and repairing BMS rhythm-game chart files.
//!
//! A chart file is line-oriented text. Lines beginning with `#`, three ASCII
//! digits and the literal channel code `02:` carry a value after the colon;
//! values longer than ten characters are a known defect that this library
//! detects and truncates. All other lines are opaque payload and are never
//! touched.
//!
//! The [`chart`] module holds the in-memory chart model with its
//! read/fix/save lifecycle, [`lines`] models how text is split into lines and
//! rendered back, and [`walk`] enumerates candidate files from a model of a
//! directory tree.

pub mod chart;
pub mod lines;
pub mod walk;
