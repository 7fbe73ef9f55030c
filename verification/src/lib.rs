//! A verified single-line tab strip for a terminal workspace.
//!
//! The core is the line-layout engine: given a fixed mode-indicator prefix,
//! an ordered sequence of pre-rendered, fixed-width tab units, the active
//! tab's index and a column budget, it computes the contiguous visible
//! window around the active tab together with the "+N hidden" collapse
//! indicators bracketing it. The layout is specified by a mathematical
//! model and the executable code is proved to return exactly that model.

pub mod ansi;
pub mod host;
pub mod line;
pub mod measure;
pub mod layout;
pub mod numfmt;
pub mod part;
pub mod state;
pub mod tab;
