//! A lexical scanner: it tags each character of a text with a category, its
//! literal text and its character offset, then merges runs of letters into
//! words.
pub mod token;
pub mod classify;
pub mod coalesce;
pub mod laws;
