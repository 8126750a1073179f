//! A runner for set-up scripts.
//!
//! Scripts lie in a directory, sorted into directories by the operating system
//! they are for. The library finds the scripts for a host among the entries of
//! that directory, names them, resolves what a user selects, and conducts
//! their run in a working directory that is removed afterwards.
//!
//! The library reads no directory and starts no process. Its caller does
//! both, and is told what to do.

pub mod cli;
pub mod host;
pub mod profiles;
pub mod scripts;
pub mod text;
