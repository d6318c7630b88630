//! The high-level intermediate representation (HIR) of Lume programs.
pub mod node;
pub mod path;
pub mod walk;
pub mod visitor;
pub mod matcher;
pub mod display;
pub mod location;
