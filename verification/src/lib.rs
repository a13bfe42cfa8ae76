//! Homework records from spreadsheet exports: merging what was parsed into
//! what is stored, deriving study sessions for tests, and the rules by which
//! a served snapshot is refreshed when new exports arrive.
//!
//! The library decides and computes; it reads no file and serves no request.
//! Each executable function states what it returns, and Verus proves that it
//! does.

pub mod calendar;
pub mod entry;
pub mod exports;
pub mod ident;
pub mod merge;
pub mod numerals;
pub mod ordering;
pub mod pipeline;
pub mod refresh;
pub mod sessions;
pub mod state;
pub mod text;
pub mod watcher;
