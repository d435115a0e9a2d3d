//! Disk image file format parsing and supporting data structures, with
//! machine-checked contracts.
#![allow(unused_imports)]

pub mod file_parsers;
pub mod file_system;
pub mod flux;
pub mod types;
