//! Identifiers and source locations shared by every compiler stage.
use vstd::prelude::*;

verus! {

/// Identifies a single package within a dependency graph.
#[derive(Clone, Copy, Debug, PartialEq, Eq, Structural, Hash)]
pub struct PackageId(pub u64);

impl PackageId {
    /// The identifier used for nodes which do not belong to any package.
    pub open spec fn spec_empty() -> PackageId {
        PackageId(0)
    }

    /// The identifier used for nodes which do not belong to any package.
    #[verifier::when_used_as_spec(spec_empty)]
    pub fn empty() -> (r: PackageId)
        ensures
            r == PackageId::spec_empty(),
    {
        PackageId(0)
    }
}

/// Uniquely identifies a single node within the whole dependency graph.
#[derive(Clone, Copy, Debug, PartialEq, Eq, Structural, Hash)]
pub struct NodeId {
    /// Index of the node within its package.
    pub index: u64,
    /// The package which defines the node.
    pub package: PackageId,
}

impl NodeId {
    /// Creates a node identifier from its package and index.
    pub fn new(package: PackageId, index: u64) -> (r: NodeId)
        ensures
            r.package == package,
            r.index == index,
    {
        NodeId { index, package }
    }

    /// The default node identifier: the first node of the package-less
    /// package.
    pub open spec fn default_id() -> NodeId {
        NodeId { index: 0, package: PackageId(0) }
    }

    /// The first node identifier of the given package.
    pub fn empty(package: PackageId) -> (r: NodeId)
        ensures
            r.package == package,
            r.index == 0,
    {
        NodeId { index: 0, package }
    }
}

impl Default for NodeId {
    fn default() -> (r: NodeId)
        ensures
            r == NodeId::default_id(),
    {
        NodeId { index: 0, package: PackageId(0) }
    }
}

/// A range of source text within a single file.
#[derive(Clone, Copy, Debug, PartialEq, Eq, Structural, Hash)]
pub struct Location {
    /// Identifier of the source file.
    pub file: u64,
    /// Start offset (inclusive) of the range.
    pub start: usize,
    /// End offset (exclusive) of the range.
    pub end: usize,
}

impl Location {
    /// A location which refers to no source text.
    pub open spec fn spec_empty() -> Location {
        Location { file: 0, start: 0, end: 0 }
    }

    /// A location which refers to no source text.
    #[verifier::when_used_as_spec(spec_empty)]
    pub fn empty() -> (r: Location)
        ensures
            r == Location::spec_empty(),
    {
        Location { file: 0, start: 0, end: 0 }
    }

    /// Start offset of the location.
    pub fn start(&self) -> (r: usize)
        ensures
            r == self.start,
    {
        self.start
    }

    /// End offset of the location.
    pub fn end(&self) -> (r: usize)
        ensures
            r == self.end,
    {
        self.end
    }
}

} // verus!
