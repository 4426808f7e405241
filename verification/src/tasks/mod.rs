//! Repository development tasks: what to run, in which order, with which arguments.
//!
//! Running the commands is left to the caller; everything here only decides
//! and describes them.
pub mod check;
pub mod command;
pub mod coverage;
pub mod features;
pub mod image;
pub mod policy;
pub mod process;
pub mod trunk;
