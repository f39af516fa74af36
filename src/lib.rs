//! Assertions on the state of a system: user accounts, groups and installed
//! packages are compared with what an operator expects, and every comparison
//! is recorded in a report.
pub mod text;
pub mod util;
pub mod report;
pub mod group;
pub mod user;
pub mod distrib;
pub mod file;
pub mod package;
