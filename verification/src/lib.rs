//! A personal log kept in one Markdown document: a title, and under it one
//! section for each day, the newest first.
//!
//! The library decides what the document holds after an entry was written: the
//! validator says whether the entry may be merged, the sanitizer brings its lines
//! into their canonical form, and the merge engine puts them under the header of
//! the day. Reading and writing files and running the editor are left to the
//! program around it.

pub mod backtrace;
pub mod cli;
pub mod constants;
pub mod database;
pub mod error;
pub mod log_file;
pub mod merge;
pub mod random;
pub mod sanitizer;
pub mod temp_file;
pub mod text;
pub mod time;
pub mod validator;
pub mod xdg;
