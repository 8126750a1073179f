//! Scripts: where they are found, how they are named and ordered, and how
//! they are run.

pub mod collector;
pub mod display;
pub mod embedded;
pub mod fs;
pub mod models;
pub mod order;
pub mod paths;
pub mod runner;
pub mod selection;
pub mod session;
