//! A manager for several installed versions of the Rust compiler and its tools.
//!
//! The library decides where installations live, which version is current,
//! what the shims in the `bin` directory contain, and which commands build a
//! version; the program around it performs the file system and network work.

pub mod path;
pub mod shell;
pub mod version;
pub mod rustv;
pub mod cli;
