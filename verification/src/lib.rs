//! A minimal two-player connection game on a rectangular grid.
//!
//! Players alternately mark cells; a marked cell wins for its owner once it
//! is directly flanked by two same-owner neighbours on one axis (left and
//! right, or above and below). The library holds the grid state, validates
//! and applies moves, and reports whether a winning configuration exists.

pub mod board;
pub mod laws;
