//! Verified core of the Lume compiler: the high-level intermediate
//! representation, its node map, package version sets and the metadata
//! block layout used by code generation.
pub mod span;
pub mod hir;
pub mod lang;
pub mod lower;
pub mod map;
pub mod arc;
pub mod codegen;
pub mod driver;
pub mod infer;
