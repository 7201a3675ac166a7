//! A declarative package manager for one person's machine. Configuration says
//! which packages are to be present, for each of several backends; this library
//! reads it, compares it with what is installed, and decides what is to be
//! installed and removed, and in which order. What touches the machine (the
//! network, the disk, subprocesses, the console) is left to the caller, who
//! performs the actions that the library hands out and reports back what came
//! of them.

pub mod checksum;
pub mod config;
pub mod error;
pub mod package_types;
pub mod providers;
pub mod text;
pub mod yamlrepr;

pub use config::RunMode;
