//! A bounded, terminal-width-aware, multi-column preview of a directory's
//! contents: a time- and capacity-bounded scan, a directories-only fallback
//! when the full listing cannot fit, and a column layout that fits names
//! into a terminal grid.

pub mod arith;
pub mod entry;
pub mod laws;
pub mod layout;
pub mod order;
pub mod render;
pub mod scan;
pub mod style;
