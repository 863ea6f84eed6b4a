//! Verified building blocks for a small file-processing command-line tool,
//! together with a collection of verified utility modules: integer
//! arithmetic, slice algorithms, string handling, validation rules, and a
//! few small container types.
//!
//! The command-line surface itself (argument intake, filesystem calls,
//! printing) lives outside the library; everything here is pure logic with
//! contracts checked by Verus.

pub mod chars;
pub mod cli;
pub mod config;
pub mod errors;
pub mod fileinfo;
pub mod generics;
pub mod lines;
pub mod listing;
pub mod math;
pub mod ownership;
pub mod parser;
pub mod pool;
pub mod records;
pub mod search;
pub mod slices;
pub mod strings;
pub mod summary;
pub mod textops;
pub mod textstats;
pub mod validation;
