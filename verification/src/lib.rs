//! A verified line-counting core: classifies the lines of a source file as
//! blank, comment, or code according to a language's lexical rules, counts
//! them per file, and folds per-file counts into per-language totals.

pub mod process;
pub mod stats;
pub mod text;
pub mod types;
