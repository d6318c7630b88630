//! The Arc package manager: package versions, version sets and package
//! resolution.
pub mod git;
pub mod parser;
pub mod resolve;
pub mod version;
