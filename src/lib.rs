//! Reads the machine-readable diagnostics of a build, picks out the ones that
//! a `what!` placeholder induces, gathers them into one hole per call site,
//! and lays each hole out as an annotated source excerpt.

pub mod text;
pub mod json;
pub mod pattern;
pub mod hole;
pub mod extract;
pub mod order;
pub mod render;
pub mod laws;
pub mod cli;

pub use text::forward_line;
