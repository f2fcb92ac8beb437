//! Decision core of a differential-testing oracle: it splits a two-column
//! diagnostic log, groups each side into chunks, reduces every chunk to a
//! signature that ignores incidental names, and derives a verdict.

pub mod chunk;
pub mod executor;
pub mod laws;
pub mod outcome;
pub mod pattern;
pub mod text;
