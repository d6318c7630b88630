//! Decisions of the compiler driver: which packages are compiled again and
//! which are taken from the incremental cache, and what each stage of the
//! pipeline hands on.
use vstd::prelude::*;

use indexmap::IndexSet;

use crate::span::PackageId;

verus! {

/// What a stage of the pipeline produced for one package: a fresh value,
/// or the path of the cached bytecode from an earlier build.
pub enum StageResult<T> {
    Value(Box<T>),
    Cached { bc_path: String },
}

impl<T> StageResult<T> {
    /// A fresh value.
    pub fn value(value: T) -> (r: StageResult<T>)
        ensures
            r == StageResult::Value(Box::new(value)),
    {
        StageResult::Value(Box::new(value))
    }
}

/// An executable which was built by the compiler.
pub struct CompiledExecutable {
    /// Path of the binary on disk.
    pub binary: String,
}

/// Whether a package has to be compiled again. Without incremental
/// compilation, always; otherwise when no metadata of an earlier build was
/// read, or the package hash recorded in it differs from the current one.
pub fn needs_compilation(incremental: bool, cached_hash: Option<u64>, current_hash: u64) -> (r: bool)
    ensures
        r == (!incremental || cached_hash != Some(current_hash)),
{
    if !incremental {
        return true;
    }
    match cached_hash {
        None => true,
        Some(hash) => hash != current_hash,
    }
}

/// The order in which packages are lowered: the dependency graph's order,
/// reversed, so that packages come after what they depend on.
pub fn lowering_order(graph_order: &Vec<PackageId>) -> (r: Vec<PackageId>)
    ensures
        r@ == graph_order@.reverse(),
{
    let mut r: Vec<PackageId> = Vec::new();
    let mut i: usize = graph_order.len();
    while i > 0
        invariant
            i <= graph_order@.len(),
            r@ == graph_order@.subrange(i as int, graph_order@.len() as int).reverse(),
        decreases i,
    {
        i = i - 1;
        r.push(graph_order[i]);
        proof {
            assert(r@ =~= graph_order@.subrange(i as int, graph_order@.len() as int).reverse());
        }
    }
    proof {
        assert(graph_order@.subrange(0, graph_order@.len() as int) =~= graph_order@);
    }
    r
}

/// What the driver does with one package.
#[derive(Debug, Clone, Copy, PartialEq, Eq, Structural)]
pub enum PackageStep {
    /// Its cached compilation is used.
    Cached,
    /// It is compiled.
    Compile,
}

/// Insertion-ordered hash set of the `indexmap` crate.
#[verifier::external_type_specification]
#[verifier::external_body]
#[verifier::reject_recursive_types(T)]
#[verifier::reject_recursive_types(S)]
pub struct ExIndexSet<T, S>(IndexSet<T, S>);

/// The packages which a set of package identifiers holds.
pub uninterp spec fn package_members(s: IndexSet<PackageId>) -> Set<PackageId>;

/// A new, empty set of packages (`IndexSet::new`).
#[verifier::external_body]
fn packages_new() -> (r: IndexSet<PackageId>)
    ensures
        package_members(r) == Set::<PackageId>::empty(),
{
    IndexSet::new()
}

/// Adds a package to a set (`IndexSet::insert`); a package it holds
/// already stays as it is. The result says whether it was new.
#[verifier::external_body]
fn packages_insert(s: &mut IndexSet<PackageId>, id: PackageId) -> (r: bool)
    ensures
        package_members(*final(s)) == package_members(*old(s)).insert(id),
        r == !package_members(*old(s)).contains(id),
{
    s.insert(id)
}

/// Whether a set holds a package (`IndexSet::contains`).
#[verifier::external_body]
fn packages_contains(s: &IndexSet<PackageId>, id: &PackageId) -> (r: bool)
    ensures
        r == package_members(*s).contains(*id),
{
    s.contains(id)
}

/// The packages which have to be compiled again because something they
/// depend on changed.
pub struct DirtyPackages {
    ids: IndexSet<PackageId>,
}

impl DirtyPackages {
    /// The packages marked dirty.
    pub closed spec fn view(&self) -> Set<PackageId> {
        package_members(self.ids)
    }

    /// No package is dirty.
    pub fn new() -> (r: DirtyPackages)
        ensures
            r.view() == Set::<PackageId>::empty(),
    {
        DirtyPackages { ids: packages_new() }
    }

    /// Whether the package is marked dirty.
    pub fn contains(&self, id: PackageId) -> (r: bool)
        ensures
            r == self.view().contains(id),
    {
        packages_contains(&self.ids, &id)
    }

    /// Marks all the given packages dirty.
    pub fn mark_all(&mut self, ids: &Vec<PackageId>)
        ensures
            final(self).view() == old(self).view().union(ids@.to_set()),
    {
        let mut i: usize = 0;
        while i < ids.len()
            invariant
                i <= ids@.len(),
                self.view() == old(self).view().union(ids@.subrange(0, i as int).to_set()),
            decreases ids.len() - i,
        {
            let ghost before = self.view();
            packages_insert(&mut self.ids, ids[i]);
            proof {
                assert(ids@.subrange(0, i + 1) =~= ids@.subrange(0, i as int).push(ids@[i as int]));
                ids@.subrange(0, i as int).lemma_push_to_set_commute(ids@[i as int]);
                assert(self.view() =~= old(self).view().union(ids@.subrange(0, i + 1).to_set()));
            }
            i = i + 1;
        }
        proof {
            assert(ids@.subrange(0, ids@.len() as int) =~= ids@);
        }
    }

    /// Whether a package may be taken from the cache: neither is it marked
    /// dirty nor has its hash changed. It is taken from the cache when its
    /// metadata can be read as well.
    pub fn may_use_cache(&self, id: PackageId, hash_changed: bool) -> (r: bool)
        ensures
            r == (!self.view().contains(id) && !hash_changed),
    {
        !self.contains(id) && !hash_changed
    }

    /// The step the driver takes for a package of the dependency graph, in
    /// the order of compilation: it is taken from the cache when it is not
    /// dirty, its hash did not change and its cached metadata was read
    /// (`metadata_read`, looked for only when the first two hold);
    /// otherwise it is compiled, and when its hash changed, the packages
    /// depending on it are marked dirty.
    pub fn step(&mut self, id: PackageId, hash_changed: bool, metadata_read: bool, dependents: &Vec<PackageId>) -> (r: PackageStep)
        ensures
            r == if !old(self).view().contains(id) && !hash_changed && metadata_read {
                PackageStep::Cached
            } else {
                PackageStep::Compile
            },
            r == PackageStep::Compile && hash_changed ==> final(self).view() == old(self).view().union(dependents@.to_set()),
            !(r == PackageStep::Compile && hash_changed) ==> final(self).view() == old(self).view(),
    {
        if self.may_use_cache(id, hash_changed) && metadata_read {
            PackageStep::Cached
        } else {
            self.record_compilation(hash_changed, dependents);
            PackageStep::Compile
        }
    }

    /// Records that a package is compiled: when its hash changed, every
    /// package which depends on it is marked dirty.
    pub fn record_compilation(&mut self, hash_changed: bool, dependents: &Vec<PackageId>)
        ensures
            hash_changed ==> final(self).view() == old(self).view().union(dependents@.to_set()),
            !hash_changed ==> final(self).view() == old(self).view(),
    {
        if hash_changed {
            self.mark_all(dependents);
        }
    }
}

} // verus!

verus! {

/// Once a package whose hash changed is compiled, every package that
/// depends on it is marked dirty, so it is not taken from the cache
/// whatever its own hash: each has to be compiled again.
pub proof fn law_dependents_are_recompiled(
    before: DirtyPackages,
    after: DirtyPackages,
    dependents: Seq<PackageId>,
    dependent: PackageId,
    hash_changed: bool,
)
    requires
        after.view() == before.view().union(dependents.to_set()),
        dependents.contains(dependent),
    ensures
        after.view().contains(dependent),
        !(!after.view().contains(dependent) && !hash_changed),
{
    assert(dependents.to_set().contains(dependent));
}

} // verus!
