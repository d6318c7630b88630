//! Resolution of package dependencies: version sets and the decisions of
//! the dependency provider.
use vstd::prelude::*;

use indexmap::IndexMap;

use crate::map::{entries_get, entries_insert, law_insert_keeps_other_keys, law_lookup_after_insert};
use crate::arc::version::{numeric_precedes, semver_precedes, version_precedes, version_text, PkgVersion, VersionView};

verus! {

/// The versions listed in `s`.
pub open spec fn members(s: Seq<PkgVersion>) -> Set<VersionView> {
    Set::new(|x: VersionView| exists|i: int| 0 <= i < s.len() && (#[trigger] s[i])@ == x)
}

/// Whether no version is listed twice.
pub open spec fn distinct_versions(s: Seq<PkgVersion>) -> bool {
    forall|i: int, j: int| 0 <= i < j < s.len() ==> (#[trigger] s[i])@ != (#[trigger] s[j])@
}

/// A set of versions: either the finite set of the listed versions, or, when
/// inverted, every version except those listed.
#[derive(Debug)]
pub struct VersionSet {
    versions: Vec<PkgVersion>,
    inverted: bool,
}

impl View for VersionSet {
    type V = Set<VersionView>;

    closed spec fn view(&self) -> Set<VersionView> {
        if self.inverted {
            members(self.versions@).complement()
        } else {
            members(self.versions@)
        }
    }
}

/// Whether `v` is listed in `list`.
fn listed(list: &Vec<PkgVersion>, v: &PkgVersion) -> (r: bool)
    ensures
        r == members(list@).contains(v@),
{
    let mut i: usize = 0;
    while i < list.len()
        invariant
            i <= list@.len(),
            forall|j: int| 0 <= j < i ==> (#[trigger] list@[j])@ != v@,
        decreases list.len() - i,
    {
        if list[i].same(v) {
            proof {
                assert(list@[i as int]@ == v@);
            }
            return true;
        }
        i = i + 1;
    }
    false
}

/// The versions of `a` which satisfy the test against `b`: listed in `b`
/// when `keep_listed`, not listed otherwise; in the order of `a`.
fn filter_by(a: &Vec<PkgVersion>, b: &Vec<PkgVersion>, keep_listed: bool) -> (r: Vec<PkgVersion>)
    requires
        distinct_versions(a@),
    ensures
        distinct_versions(r@),
        forall|x: VersionView| #[trigger] members(r@).contains(x) == (members(a@).contains(x) && members(b@).contains(x) == keep_listed),
{
    let mut out: Vec<PkgVersion> = Vec::new();
    let mut i: usize = 0;
    while i < a.len()
        invariant
            i <= a@.len(),
            distinct_versions(a@),
            distinct_versions(out@),
            forall|k: int| 0 <= k < out@.len() ==> exists|j: int| 0 <= j < i && (#[trigger] a@[j])@ == (#[trigger] out@[k])@,
            forall|x: VersionView| #[trigger] members(out@).contains(x) == (members(a@.subrange(0, i as int)).contains(x) && members(b@).contains(x) == keep_listed),
        decreases a.len() - i,
    {
        let ghost before = out@;
        let ghost sub = a@.subrange(0, i as int);
        let ghost sub1 = a@.subrange(0, i + 1);
        let is_listed = listed(b, &a[i]);
        let added = is_listed == keep_listed;
        if added {
            out.push(a[i].clone());
            proof {
                assert forall|k: int| 0 <= k < before.len() implies (#[trigger] out@[k])@ != out@[before.len() as int]@ by {
                    let j = choose|j: int| 0 <= j < i && (#[trigger] a@[j])@ == before[k]@;
                    assert(out@[k] == before[k]);
                    assert(a@[j]@ != a@[i as int]@);
                }
                assert(distinct_versions(out@)) by {
                    assert forall|p: int, q: int| 0 <= p < q < out@.len() implies (#[trigger] out@[p])@ != (#[trigger] out@[q])@ by {
                        if q < before.len() {
                            assert(out@[p] == before[p] && out@[q] == before[q]);
                        }
                    }
                }
            }
        }
        proof {
            assert forall|k: int| 0 <= k < out@.len() implies exists|j: int| 0 <= j < i + 1 && (#[trigger] a@[j])@ == (#[trigger] out@[k])@ by {
                if k < before.len() {
                    assert(out@[k] == before[k]);
                    let j = choose|j: int| 0 <= j < i && (#[trigger] a@[j])@ == before[k]@;
                    assert(a@[j]@ == out@[k]@);
                } else {
                    assert(a@[i as int]@ == out@[k]@);
                }
            }
            assert forall|x: VersionView| #[trigger] members(sub1).contains(x) == (members(sub).contains(x) || x == a@[i as int]@) by {
                if members(sub1).contains(x) {
                    let j = choose|j: int| 0 <= j < sub1.len() && (#[trigger] sub1[j])@ == x;
                    if j < i {
                        assert(sub[j] == sub1[j]);
                    }
                }
                if members(sub).contains(x) {
                    let j = choose|j: int| 0 <= j < sub.len() && (#[trigger] sub[j])@ == x;
                    assert(sub1[j] == sub[j]);
                }
                if x == a@[i as int]@ {
                    assert(sub1[i as int]@ == x);
                }
            }
            assert forall|x: VersionView| #[trigger] members(out@).contains(x) == (members(before).contains(x) || (added && x == a@[i as int]@)) by {
                if members(out@).contains(x) {
                    let k = choose|k: int| 0 <= k < out@.len() && (#[trigger] out@[k])@ == x;
                    if k < before.len() {
                        assert(out@[k] == before[k]);
                    }
                }
                if members(before).contains(x) {
                    let k = choose|k: int| 0 <= k < before.len() && (#[trigger] before[k])@ == x;
                    assert(out@[k] == before[k]);
                }
                if added && x == a@[i as int]@ {
                    assert(out@[before.len() as int]@ == x);
                }
            }
        }
        i = i + 1;
    }
    proof {
        assert(a@.subrange(0, a@.len() as int) =~= a@);
    }
    out
}

/// Copies a list of versions.
fn copy_versions(a: &Vec<PkgVersion>) -> (r: Vec<PkgVersion>)
    ensures
        r@.len() == a@.len(),
        forall|i: int| 0 <= i < a@.len() ==> (#[trigger] r@[i])@ == a@[i]@,
{
    let mut out: Vec<PkgVersion> = Vec::new();
    let mut i: usize = 0;
    while i < a.len()
        invariant
            i <= a@.len(),
            out@.len() == i,
            forall|j: int| 0 <= j < i ==> (#[trigger] out@[j])@ == a@[j]@,
        decreases a.len() - i,
    {
        out.push(a[i].clone());
        i = i + 1;
    }
    out
}

/// The versions of `a`, followed by those of `b` which `a` does not list.
fn union_of(a: &Vec<PkgVersion>, b: &Vec<PkgVersion>) -> (r: Vec<PkgVersion>)
    requires
        distinct_versions(a@),
        distinct_versions(b@),
    ensures
        distinct_versions(r@),
        members(r@) == members(a@).union(members(b@)),
{
    let mut out = copy_versions(a);
    let mut rest = filter_by(b, a, false);
    let ghost first = out@;
    let ghost second = rest@;
    out.append(&mut rest);
    proof {
        assert forall|p: int, q: int| 0 <= p < q < out@.len() implies (#[trigger] out@[p])@ != (#[trigger] out@[q])@ by {
            if q < first.len() {
                assert(out@[p]@ == a@[p]@ && out@[q]@ == a@[q]@);
            } else if p >= first.len() {
                assert(out@[p] == second[p - first.len()] && out@[q] == second[q - first.len()]);
            } else {
                assert(out@[p]@ == a@[p]@);
                assert(out@[q] == second[q - first.len()]);
                assert(members(second).contains(out@[q]@));
                assert(members(a@).contains(out@[p]@));
            }
        }
        assert forall|x: VersionView| #[trigger] members(out@).contains(x) == members(a@).union(members(b@)).contains(x) by {
            if members(out@).contains(x) {
                let k = choose|k: int| 0 <= k < out@.len() && (#[trigger] out@[k])@ == x;
                if k < first.len() {
                    assert(a@[k]@ == x);
                } else {
                    assert(out@[k] == second[k - first.len()]);
                    assert(members(second).contains(x));
                }
            }
            if members(a@).contains(x) {
                let k = choose|k: int| 0 <= k < a@.len() && (#[trigger] a@[k])@ == x;
                assert(out@[k]@ == x);
            } else if members(b@).contains(x) {
                assert(members(second).contains(x));
                let k = choose|k: int| 0 <= k < second.len() && (#[trigger] second[k])@ == x;
                assert(out@[first.len() + k] == second[k]);
            }
        }
        assert(members(out@) =~= members(a@).union(members(b@)));
    }
    out
}

/// The versions of `a`, each listed once, in order of first occurrence.
fn dedup(a: Vec<PkgVersion>) -> (r: Vec<PkgVersion>)
    ensures
        distinct_versions(r@),
        members(r@) == members(a@),
{
    let mut out: Vec<PkgVersion> = Vec::new();
    let mut i: usize = 0;
    while i < a.len()
        invariant
            i <= a@.len(),
            distinct_versions(out@),
            members(out@) == members(a@.subrange(0, i as int)),
        decreases a.len() - i,
    {
        let ghost before = out@;
        let ghost sub = a@.subrange(0, i as int);
        let ghost sub1 = a@.subrange(0, i + 1);
        let seen = listed(&out, &a[i]);
        if !seen {
            out.push(a[i].clone());
            proof {
                assert forall|p: int, q: int| 0 <= p < q < out@.len() implies (#[trigger] out@[p])@ != (#[trigger] out@[q])@ by {
                    if q < before.len() {
                        assert(out@[p] == before[p] && out@[q] == before[q]);
                    } else {
                        assert(out@[p] == before[p]);
                        assert(members(before).contains(before[p]@));
                    }
                }
            }
        }
        proof {
            assert forall|x: VersionView| #[trigger] members(sub1).contains(x) == (members(sub).contains(x) || x == a@[i as int]@) by {
                if members(sub1).contains(x) {
                    let j = choose|j: int| 0 <= j < sub1.len() && (#[trigger] sub1[j])@ == x;
                    if j < i {
                        assert(sub[j] == sub1[j]);
                    }
                }
                if members(sub).contains(x) {
                    let j = choose|j: int| 0 <= j < sub.len() && (#[trigger] sub[j])@ == x;
                    assert(sub1[j] == sub[j]);
                }
                if x == a@[i as int]@ {
                    assert(sub1[i as int]@ == x);
                }
            }
            assert forall|x: VersionView| #[trigger] members(out@).contains(x) == (members(before).contains(x) || x == a@[i as int]@) by {
                if members(out@).contains(x) {
                    let k = choose|k: int| 0 <= k < out@.len() && (#[trigger] out@[k])@ == x;
                    if k < before.len() {
                        assert(out@[k] == before[k]);
                    }
                }
                if members(before).contains(x) {
                    let k = choose|k: int| 0 <= k < before.len() && (#[trigger] before[k])@ == x;
                    if !seen {
                        assert(out@[k] == before[k]);
                    }
                }
                if x == a@[i as int]@ && !seen {
                    assert(out@[before.len() as int]@ == x);
                }
            }
            assert(members(out@) =~= members(sub1));
        }
        i = i + 1;
    }
    proof {
        assert(a@.subrange(0, a@.len() as int) =~= a@);
    }
    out
}

impl VersionSet {
    /// Listed versions are distinct.
    pub closed spec fn well_formed(&self) -> bool {
        distinct_versions(self.versions@)
    }

    /// The finite set of the given versions.
    pub fn from_versions(versions: Vec<PkgVersion>) -> (r: VersionSet)
        ensures
            r.well_formed(),
            r@ == members(versions@),
    {
        VersionSet { versions: dedup(versions), inverted: false }
    }

    /// The empty set.
    pub fn empty() -> (r: VersionSet)
        ensures
            r.well_formed(),
            r@ == Set::<VersionView>::empty(),
    {
        let r = VersionSet { versions: Vec::new(), inverted: false };
        proof {
            assert(members(r.versions@) =~= Set::<VersionView>::empty());
        }
        r
    }

    /// The set of the single version `v`.
    pub fn singleton(v: PkgVersion) -> (r: VersionSet)
        ensures
            r.well_formed(),
            r@ == Set::<VersionView>::empty().insert(v@),
    {
        let ghost vv = v@;
        let versions = vec![v];
        let r = VersionSet { versions, inverted: false };
        proof {
            assert(r.versions@[0]@ == vv);
            assert(members(r.versions@) =~= Set::<VersionView>::empty().insert(vv));
        }
        r
    }

    /// Every version which is not in `self`.
    pub fn complement(&self) -> (r: VersionSet)
        requires
            self.well_formed(),
        ensures
            r.well_formed(),
            r@ == self@.complement(),
    {
        let versions = copy_versions(&self.versions);
        let r = VersionSet { versions, inverted: !self.inverted };
        proof {
            assert forall|p: int, q: int| 0 <= p < q < r.versions@.len() implies (#[trigger] r.versions@[p])@ != (#[trigger] r.versions@[q])@ by {
                assert(r.versions@[p]@ == self.versions@[p]@ && r.versions@[q]@ == self.versions@[q]@);
            }
            assert forall|x: VersionView| #[trigger] members(r.versions@).contains(x) == members(self.versions@).contains(x) by {
                if members(r.versions@).contains(x) {
                    let k = choose|k: int| 0 <= k < r.versions@.len() && (#[trigger] r.versions@[k])@ == x;
                    assert(self.versions@[k]@ == x);
                }
                if members(self.versions@).contains(x) {
                    let k = choose|k: int| 0 <= k < self.versions@.len() && (#[trigger] self.versions@[k])@ == x;
                    assert(r.versions@[k]@ == x);
                }
            }
            assert(members(r.versions@) =~= members(self.versions@));
            assert(r@ =~= self@.complement());
        }
        r
    }

    /// The versions in both sets.
    pub fn intersection(&self, other: &VersionSet) -> (r: VersionSet)
        requires
            self.well_formed(),
            other.well_formed(),
        ensures
            r.well_formed(),
            r@ == self@.intersect(other@),
    {
        if self.inverted && other.inverted {
            let versions = union_of(&self.versions, &other.versions);
            let r = VersionSet { versions, inverted: true };
            proof {
                assert(r@ =~= self@.intersect(other@));
            }
            r
        } else if self.inverted {
            let versions = filter_by(&other.versions, &self.versions, false);
            let r = VersionSet { versions, inverted: false };
            proof {
                assert(r@ =~= self@.intersect(other@));
            }
            r
        } else if other.inverted {
            let versions = filter_by(&self.versions, &other.versions, false);
            let r = VersionSet { versions, inverted: false };
            proof {
                assert(r@ =~= self@.intersect(other@));
            }
            r
        } else {
            let versions = filter_by(&self.versions, &other.versions, true);
            let r = VersionSet { versions, inverted: false };
            proof {
                assert(r@ =~= self@.intersect(other@));
            }
            r
        }
    }

    /// Whether `v` is in the set.
    pub fn contains(&self, v: &PkgVersion) -> (r: bool)
        ensures
            r == self@.contains(v@),
    {
        let found = listed(&self.versions, v);
        if self.inverted {
            !found
        } else {
            found
        }
    }
}

/// Whether `o` lists every position of `vs` once, in an order where no
/// version comes right after one which it precedes.
pub open spec fn listing_order(vs: Seq<VersionView>, o: Seq<int>) -> bool {
    &&& o.len() == vs.len()
    &&& forall|k: int| 0 <= k < o.len() ==> 0 <= #[trigger] o[k] < vs.len()
    &&& forall|k: int, m: int| 0 <= k < m < o.len() ==> #[trigger] o[k] != #[trigger] o[m]
    &&& forall|k: int| 0 <= k < o.len() - 1 ==> !semver_precedes(vs[#[trigger] o[k + 1]], vs[o[k]])
}

/// Texts joined by `, `.
pub open spec fn joined(texts: Seq<Seq<char>>) -> Seq<char>
    decreases texts.len(),
{
    if texts.len() == 0 {
        Seq::empty()
    } else if texts.len() == 1 {
        texts[0]
    } else {
        joined(texts.drop_last()) + ", "@ + texts.last()
    }
}

/// The texts of the versions of `vs` at the positions `o`, joined by `, `.
pub open spec fn listing_text(vs: Seq<VersionView>, o: Seq<int>) -> Seq<char> {
    joined(o.map_values(|k: int| version_text(vs[k])))
}

impl VersionSet {
    /// The versions which the set lists, in the order they are stored.
    pub closed spec fn listed(&self) -> Seq<VersionView> {
        self.versions@.map_values(|v: PkgVersion| v@)
    }

    /// Whether the set holds every version except the listed ones.
    pub closed spec fn is_inverted(&self) -> bool {
        self.inverted
    }

    /// A set holds its listed versions, or, when inverted, every version
    /// but those.
    pub proof fn lemma_listing(&self)
        ensures
            self@ == if self.is_inverted() {
                self.listed().to_set().complement()
            } else {
                self.listed().to_set()
            },
    {
        assert(members(self.versions@) =~= self.listed().to_set()) by {
            assert forall|x: VersionView| members(self.versions@).contains(x) implies self.listed().to_set().contains(x) by {
                let i = choose|i: int| 0 <= i < self.versions@.len() && (#[trigger] self.versions@[i])@ == x;
                assert(self.listed()[i] == x);
            }
            assert forall|x: VersionView| self.listed().to_set().contains(x) implies members(self.versions@).contains(x) by {
                let i = choose|i: int| 0 <= i < self.listed().len() && self.listed()[i] == x;
                assert(self.versions@[i]@ == x);
            }
        }
    }

    /// The text of the set as the resolver reports it: the listed versions
    /// in ascending order, joined by `, `. (For an inverted set these are the
    /// versions it leaves out.)
    pub fn to_string(&self) -> (r: String)
        ensures
            exists|o: Seq<int>| listing_order(self.listed(), o) && r@ == listing_text(self.listed(), o),
    {
        let ghost vs = self.listed();
        let n = self.versions.len();
        let mut order: Vec<usize> = Vec::new();
        let mut i: usize = 0;
        while i < n
            invariant
                i <= n,
                n == self.versions@.len(),
                vs == self.listed(),
                order@.len() == i,
                forall|k: int| 0 <= k < order@.len() ==> #[trigger] order@[k] < i,
                forall|k: int, m: int| 0 <= k < m < order@.len() ==> #[trigger] order@[k] != #[trigger] order@[m],
                forall|k: int|
                    0 <= k < order@.len() - 1 ==> !semver_precedes(
                        vs[#[trigger] order@[k + 1] as int],
                        vs[order@[k] as int],
                    ),
            decreases n - i,
        {
            let mut j: usize = order.len();
            while j > 0 && version_precedes(&self.versions[i], &self.versions[order[j - 1]])
                invariant
                    j <= order@.len(),
                    i < n,
                    n == self.versions@.len(),
                    vs == self.listed(),
                    forall|k: int| 0 <= k < order@.len() ==> #[trigger] order@[k] < i,
                    j < order@.len() ==> !semver_precedes(vs[order@[j as int] as int], vs[i as int]),
                decreases j,
            {
                j = j - 1;
            }
            let ghost before = order@;
            proof {
                assert(j > 0 ==> !semver_precedes(vs[i as int], vs[before[j - 1] as int]));
            }
            order.insert(j, i);
            proof {
                before.insert_ensures(j as int, i);
                assert forall|k: int| 0 <= k < order@.len() - 1 implies !semver_precedes(
                    vs[#[trigger] order@[k + 1] as int],
                    vs[order@[k] as int],
                ) by {
                    if k + 1 < j {
                        assert(order@[k] == before[k] && order@[k + 1] == before[k + 1]);
                    } else if k + 1 == j {
                        assert(order@[k] == before[k] && order@[k + 1] == i);
                    } else if k == j {
                        assert(order@[k] == i && order@[k + 1] == before[k]);
                    } else {
                        assert(order@[k] == before[k - 1] && order@[k + 1] == before[k]);
                    }
                }
                assert forall|k: int, m: int| 0 <= k < m < order@.len() implies #[trigger] order@[k] != #[trigger] order@[m] by {
                    if k < j && m < j {
                    } else if k < j && m == j {
                        assert(before[k] < i);
                    } else if k < j {
                        assert(order@[m] == before[m - 1]);
                    } else if k == j {
                        assert(order@[m] == before[m - 1]);
                        assert(before[m - 1] < i);
                    } else {
                        assert(order@[k] == before[k - 1] && order@[m] == before[m - 1]);
                    }
                }
                assert forall|k: int| 0 <= k < order@.len() implies #[trigger] order@[k] < i + 1 by {
                    if k < j {
                    } else if k == j {
                    } else {
                        assert(order@[k] == before[k - 1]);
                    }
                }
            }
            i = i + 1;
        }
        let ghost o = order@.map_values(|k: usize| k as int);
        let ghost texts = o.map_values(|k: int| version_text(vs[k]));
        let sep = ", ";
        proof {
            reveal_strlit(", ");
        }
        let mut r = String::new();
        let mut k: usize = 0;
        while k < order.len()
            invariant
                k <= order@.len(),
                order@.len() == n,
                n == self.versions@.len(),
                vs == self.listed(),
                o == order@.map_values(|k: usize| k as int),
                texts == o.map_values(|k: int| version_text(vs[k])),
                forall|m: int| 0 <= m < order@.len() ==> #[trigger] order@[m] < n,
                r@ == joined(texts.take(k as int)),
                sep@ == ", "@,
            decreases order.len() - k,
        {
            let t = self.versions[order[k]].to_string();
            proof {
                assert(texts.take(k + 1).drop_last() =~= texts.take(k as int));
                assert(o[k as int] == order@[k as int] as int);
                assert(texts[k as int] == version_text(vs[order@[k as int] as int]));
                assert(texts.take(k + 1).last() == texts[k as int]);
                assert(texts.take(k + 1).len() == k + 1);
                assert(vs[order@[k as int] as int] == self.versions@[order@[k as int] as int]@);
            }
            let ghost r0 = r@;
            if k > 0 {
                r = r.concat(sep);
            }
            let ghost r1 = r@;
            r = r.concat(t.as_str());
            proof {
                assert(t@ == texts[k as int]);
                let tk = texts.take(k + 1);
                assert(r0 == joined(texts.take(k as int)));
                assert(r@ == r1 + t@);
                if k == 0 {
                    assert(texts.take(0).len() == 0);
                    assert(r0 == Seq::<char>::empty());
                    assert(r1 == r0);
                    assert(tk.len() == 1);
                    assert(joined(tk) == tk[0]);
                    assert(r@ =~= Seq::<char>::empty() + t@);
                } else {
                    assert(r1 == r0 + ", "@);
                    assert(joined(tk) == joined(tk.drop_last()) + ", "@ + tk.last());
                }
                assert(r@ =~= joined(tk));
            }
            k = k + 1;
        }
        proof {
            assert(texts.take(order@.len() as int) =~= texts);
            assert(listing_order(vs, o));
        }
        r
    }
}

/// Identifies a package which takes part in dependency resolution.
#[derive(Debug, PartialEq, Eq, Hash)]
pub enum PackageKey {
    /// Canonical absolute path to the package root.
    Local(String),
    /// A package in a Git repository, at a resolved revision.
    Git { repository: String, rev: String, dir: Option<String> },
}

impl PackageKey {
    /// The text which names the package in reports: its path, or its
    /// repository.
    pub fn to_string(&self) -> (r: String)
        ensures
            r@ == match self {
                PackageKey::Local(path) => path@,
                PackageKey::Git { repository, .. } => repository@,
            },
    {
        match self {
            PackageKey::Local(path) => path.clone(),
            PackageKey::Git { repository, .. } => repository.clone(),
        }
    }
}

/// Mathematical model of a [`PackageKey`].
pub enum PackageKeyView {
    Local(Seq<char>),
    Git { repository: Seq<char>, rev: Seq<char>, dir: Option<Seq<char>> },
}

impl View for PackageKey {
    type V = PackageKeyView;

    open spec fn view(&self) -> PackageKeyView {
        match self {
            PackageKey::Local(path) => PackageKeyView::Local(path@),
            PackageKey::Git { repository, rev, dir } => PackageKeyView::Git {
                repository: repository@,
                rev: rev@,
                dir: match dir {
                    Some(d) => Some(d@),
                    None => None,
                },
            },
        }
    }
}

/// The entries of a map from packages to their local folders, in insertion
/// order, keys and folders as text; two keys are the same entry when their
/// models are equal, as the derived `Eq` of [`PackageKey`] compares them.
pub uninterp spec fn path_entries(m: IndexMap<PackageKey, String>) -> Seq<(PackageKeyView, Seq<char>)>;

/// A new, empty map of package folders (`IndexMap::new`).
#[verifier::external_body]
fn paths_new() -> (r: IndexMap<PackageKey, String>)
    ensures
        path_entries(r) == Seq::<(PackageKeyView, Seq<char>)>::empty(),
{
    IndexMap::new()
}

/// The folder stored for a package, if any (`IndexMap::get`).
#[verifier::external_body]
fn paths_get<'a>(m: &'a IndexMap<PackageKey, String>, k: &PackageKey) -> (r: Option<&'a String>)
    ensures
        match r {
            Some(p) => entries_get(path_entries(*m), k@) == Some(p@),
            None => entries_get(path_entries(*m), k@) is None,
        },
{
    m.get(k)
}

/// Stores the folder of a package (`IndexMap::insert`): an existing entry
/// keeps its place and takes the new folder; a new one goes last.
#[verifier::external_body]
fn paths_insert(m: &mut IndexMap<PackageKey, String>, k: PackageKey, v: String)
    ensures
        path_entries(*final(m)) == entries_insert(path_entries(*old(m)), k@, v@),
{
    m.insert(k, v);
}

/// What fetching a package takes.
pub enum FetchStep {
    /// The package was fetched before, into this folder.
    Known(String),
    /// A local package is its own folder.
    Local(String),
    /// A Git package is cloned first.
    Clone { repository: String, rev: String, dir: Option<String> },
}

/// The local folders of the packages fetched so far, so that a package is
/// fetched once.
pub struct PackagePaths {
    paths: IndexMap<PackageKey, String>,
}

impl PackagePaths {
    /// The packages fetched so far and their folders, in the order they
    /// were fetched.
    pub closed spec fn entries(&self) -> Seq<(PackageKeyView, Seq<char>)> {
        path_entries(self.paths)
    }

    /// No package is fetched yet.
    pub fn new() -> (r: PackagePaths)
        ensures
            r.entries() == Seq::<(PackageKeyView, Seq<char>)>::empty(),
    {
        PackagePaths { paths: paths_new() }
    }

    /// What fetching `key` takes: the folder it was fetched into before; or,
    /// when it was not, a local package's own folder, or a clone of a Git
    /// package.
    pub fn fetch_step(&self, key: &PackageKey) -> (r: FetchStep)
        ensures
            match entries_get(self.entries(), key@) {
                Some(p) => r matches FetchStep::Known(x) && x@ == p,
                None => match key {
                    PackageKey::Local(path) => r matches FetchStep::Local(x) && x@ == path@,
                    PackageKey::Git { repository, rev, dir } => r matches FetchStep::Clone {
                        repository: a,
                        rev: b,
                        dir: c,
                    } && a@ == repository@ && b@ == rev@ && match (c, dir) {
                        (Some(x), Some(y)) => x@ == y@,
                        (None, None) => true,
                        _ => false,
                    },
                },
            },
    {
        match paths_get(&self.paths, key) {
            Some(p) => FetchStep::Known(p.clone()),
            None => match key {
                PackageKey::Local(path) => FetchStep::Local(path.clone()),
                PackageKey::Git { repository, rev, dir } => FetchStep::Clone {
                    repository: repository.clone(),
                    rev: rev.clone(),
                    dir: match dir {
                        Some(d) => Some(d.clone()),
                        None => None,
                    },
                },
            },
        }
    }

    /// Remembers the folder which a package was fetched into.
    pub fn record(&mut self, key: PackageKey, path: String)
        ensures
            final(self).entries() == entries_insert(old(self).entries(), key@, path@),
    {
        paths_insert(&mut self.paths, key, path);
    }
}

/// A package is fetched once: after its folder is recorded, fetching it
/// again gives that folder, and the folders of other packages are kept.
pub proof fn law_fetched_folder_is_kept(
    before: PackagePaths,
    after: PackagePaths,
    key: PackageKeyView,
    folder: Seq<char>,
    other: PackageKeyView,
)
    requires
        after.entries() == entries_insert(before.entries(), key, folder),
    ensures
        entries_get(after.entries(), key) == Some(folder),
        other != key ==> entries_get(after.entries(), other) == entries_get(before.entries(), other),
{
    law_lookup_after_insert(before.entries(), key, folder);
    if other != key {
        law_insert_keeps_other_keys(before.entries(), key, folder, other);
    }
}

/// Why the dependencies of a package could not be determined.
#[derive(Debug)]
pub enum DependencyError {
    /// The package could not be fetched.
    PackageFetchFailed { source: PackageKey },
    /// The versions of a dependency could not be fetched.
    VersionsFetchFailed { package_name: String },
    /// No dependency has the requested version.
    VersionNotFound,
}

/// The largest version, the last one among equals, as `Iterator::max`
/// picks it.
pub open spec fn max_version(s: Seq<VersionView>) -> Option<VersionView>
    decreases s.len(),
{
    if s.len() == 0 {
        None
    } else {
        match max_version(s.drop_last()) {
            None => Some(s.last()),
            Some(best) => if semver_precedes(s.last(), best) {
                Some(best)
            } else {
                Some(s.last())
            },
        }
    }
}

/// The views of the versions of `s` which the set admits, in order.
pub open spec fn admitted(s: Seq<PkgVersion>, range: Set<VersionView>) -> Seq<VersionView>
    decreases s.len(),
{
    if s.len() == 0 {
        Seq::empty()
    } else {
        let prev = admitted(s.drop_last(), range);
        if range.contains(s.last()@) {
            prev.push(s.last()@)
        } else {
            prev
        }
    }
}

/// The largest version among `versions` which `range` admits; `None` when
/// it admits none. No admitted version has greater `(major, minor, patch)`
/// than the chosen one.
pub fn choose_version(versions: &Vec<PkgVersion>, range: &VersionSet) -> (r: Option<PkgVersion>)
    requires
        range.well_formed(),
    ensures
        match r {
            Some(v) => max_version(admitted(versions@, range@)) == Some(v@),
            None => max_version(admitted(versions@, range@)) is None,
        },
        r matches Some(m) ==> forall|j: int|
            0 <= j < versions@.len() && range@.contains(#[trigger] versions@[j]@) ==> !numeric_precedes(m@, versions@[j]@),
        r is None <==> forall|j: int| 0 <= j < versions@.len() ==> !range@.contains(#[trigger] versions@[j]@),
{
    let mut best: Option<PkgVersion> = None;
    let mut i: usize = 0;
    while i < versions.len()
        invariant
            i <= versions@.len(),
            range.well_formed(),
            match best {
                Some(b) => max_version(admitted(versions@.subrange(0, i as int), range@)) == Some(b@),
                None => max_version(admitted(versions@.subrange(0, i as int), range@)) is None,
            },
            best matches Some(b) ==> forall|j: int|
                0 <= j < i && range@.contains(#[trigger] versions@[j]@) ==> !numeric_precedes(b@, versions@[j]@),
            best is None <==> forall|j: int| 0 <= j < i ==> !range@.contains(#[trigger] versions@[j]@),
        decreases versions.len() - i,
    {
        proof {
            let sub1 = versions@.subrange(0, i + 1);
            assert(sub1.drop_last() =~= versions@.subrange(0, i as int));
            assert(sub1.last() == versions@[i as int]);
        }
        let v = &versions[i];
        if range.contains(v) {
            let ghost sub1 = versions@.subrange(0, i + 1);
            let next = match best {
                None => v.clone(),
                Some(b) => if version_precedes(v, &b) {
                    b
                } else {
                    v.clone()
                },
            };
            proof {
                assert(admitted(sub1, range@) == admitted(versions@.subrange(0, i as int), range@).push(v@));
                assert(admitted(sub1, range@).drop_last() =~= admitted(versions@.subrange(0, i as int), range@));
            }
            best = Some(next);
        }
        i = i + 1;
    }
    proof {
        assert(versions@.subrange(0, versions@.len() as int) =~= versions@);
    }
    best
}

/// The priority of a package for the resolver: the number of conflicts
/// together with the first of its versions which `range` admits; when its
/// versions are unknown or none is admitted, the lowest priority, with
/// version `0.0.0`.
pub fn prioritize(versions: Option<&Vec<PkgVersion>>, range: &VersionSet, conflict_count: u32) -> (r: (u32, PkgVersion))
    requires
        range.well_formed(),
    ensures
        match versions {
            Some(vs) => match first_admitted(vs@, range@) {
                Some(v) => r.0 == conflict_count && r.1@ == v,
                None => r.0 == u32::MAX && r.1@ == PkgVersion::zero_view(),
            },
            None => r.0 == u32::MAX && r.1@ == PkgVersion::zero_view(),
        },
{
    match versions {
        None => (u32::MAX, PkgVersion::new(0, 0, 0)),
        Some(vs) => {
            let mut i: usize = 0;
            proof {
                assert(vs@.subrange(0, vs@.len() as int) =~= vs@);
            }
            while i < vs.len()
                invariant
                    i <= vs@.len(),
                    range.well_formed(),
                    versions == Some(vs),
                    first_admitted(vs@, range@) == first_admitted(vs@.subrange(i as int, vs@.len() as int), range@),
                decreases vs.len() - i,
            {
                let ghost rest = vs@.subrange(i as int, vs@.len() as int);
                proof {
                    assert(rest.drop_first() =~= vs@.subrange(i + 1, vs@.len() as int));
                    assert(rest[0] == vs@[i as int]);
                }
                if range.contains(&vs[i]) {
                    proof {
                        assert(first_admitted(rest, range@) == Some(vs@[i as int]@));
                    }
                    let v = vs[i].clone();
                    return (conflict_count, v);
                }
                i = i + 1;
            }
            proof {
                assert(vs@.subrange(i as int, vs@.len() as int).len() == 0);
            }
            (u32::MAX, PkgVersion::new(0, 0, 0))
        },
    }
}

/// The first version of `s` which the set admits.
pub open spec fn first_admitted(s: Seq<PkgVersion>, range: Set<VersionView>) -> Option<VersionView>
    decreases s.len(),
{
    if s.len() == 0 {
        None
    } else if range.contains(s[0]@) {
        Some(s[0]@)
    } else {
        first_admitted(s.drop_first(), range)
    }
}

/// The version which the resolver prioritises is the first listed one that
/// the range admits: it is listed, admitted, and every version listed
/// before it is refused; when the range admits none, none is.
pub proof fn law_first_admitted_comes_first(s: Seq<PkgVersion>, range: Set<VersionView>)
    ensures
        match first_admitted(s, range) {
            Some(v) => exists|i: int|
                0 <= i < s.len() && (#[trigger] s[i])@ == v && range.contains(v) && forall|j: int|
                    0 <= j < i ==> !range.contains((#[trigger] s[j])@),
            None => forall|j: int| 0 <= j < s.len() ==> !range.contains((#[trigger] s[j])@),
        },
    decreases s.len(),
{
    if s.len() > 0 && !range.contains(s[0]@) {
        let t = s.drop_first();
        law_first_admitted_comes_first(t, range);
        match first_admitted(t, range) {
            Some(v) => {
                let i = choose|i: int|
                    0 <= i < t.len() && (#[trigger] t[i])@ == v && range.contains(v) && forall|j: int|
                        0 <= j < i ==> !range.contains((#[trigger] t[j])@);
                assert(s[i + 1] == t[i]);
                assert forall|j: int| 0 <= j < i + 1 implies !range.contains((#[trigger] s[j])@) by {
                    if j > 0 {
                        assert(s[j] == t[j - 1]);
                    }
                }
            },
            None => {
                assert forall|j: int| 0 <= j < s.len() implies !range.contains((#[trigger] s[j])@) by {
                    if j > 0 {
                        assert(s[j] == t[j - 1]);
                    }
                }
            },
        }
    } else if s.len() > 0 {
        assert(s[0]@ == s[0]@);
    }
}

/// The versions of a dependency which the version requirement `req`
/// admits; a requirement which does not parse admits none.
pub fn compatible_versions(req: &str, versions: &Vec<PkgVersion>) -> (r: VersionSet)
    ensures
        r.well_formed(),
        forall|x: VersionView| #[trigger] r@.contains(x) == (members(versions@).contains(x)
            && exists|i: int| 0 <= i < versions@.len() && (#[trigger] versions@[i])@ == x
                && crate::arc::version::semver_req_matches(req@, x) == Some(true)),
{
    let mut kept: Vec<PkgVersion> = Vec::new();
    let mut i: usize = 0;
    while i < versions.len()
        invariant
            i <= versions@.len(),
            forall|k: int| 0 <= k < kept@.len() ==> exists|j: int| 0 <= j < i && (#[trigger] versions@[j])@ == (#[trigger] kept@[k])@
                && crate::arc::version::semver_req_matches(req@, versions@[j]@) == Some(true),
            forall|j: int| 0 <= j < i && crate::arc::version::semver_req_matches(req@, (#[trigger] versions@[j])@) == Some(true)
                ==> members(kept@).contains(versions@[j]@),
        decreases versions.len() - i,
    {
        let ghost before = kept@;
        let m = crate::arc::version::req_matches(req, &versions[i]);
        match m {
            Some(true) => {
                kept.push(versions[i].clone());
                proof {
                    assert forall|j: int| 0 <= j < i + 1 && crate::arc::version::semver_req_matches(req@, (#[trigger] versions@[j])@) == Some(true)
                        implies members(kept@).contains(versions@[j]@) by {
                        if j < i {
                            let k = choose|k: int| 0 <= k < before.len() && (#[trigger] before[k])@ == versions@[j]@;
                            assert(kept@[k] == before[k]);
                        } else {
                            assert(kept@[before.len() as int]@ == versions@[j]@);
                        }
                    }
                    assert forall|k: int| 0 <= k < kept@.len() implies exists|j: int| 0 <= j < i + 1 && (#[trigger] versions@[j])@ == (#[trigger] kept@[k])@
                        && crate::arc::version::semver_req_matches(req@, versions@[j]@) == Some(true) by {
                        if k < before.len() {
                            assert(kept@[k] == before[k]);
                            let j = choose|j: int| 0 <= j < i && (#[trigger] versions@[j])@ == (#[trigger] before[k])@
                                && crate::arc::version::semver_req_matches(req@, versions@[j]@) == Some(true);
                            assert(versions@[j]@ == kept@[k]@);
                        } else {
                            assert(versions@[i as int]@ == kept@[k]@);
                        }
                    }
                }
            },
            _ => {},
        }
        i = i + 1;
    }
    let r = VersionSet::from_versions(kept);
    proof {
        assert forall|x: VersionView| #[trigger] r@.contains(x) == (members(versions@).contains(x)
            && exists|i: int| 0 <= i < versions@.len() && (#[trigger] versions@[i])@ == x
                && crate::arc::version::semver_req_matches(req@, x) == Some(true)) by {
            if r@.contains(x) {
                let k = choose|k: int| 0 <= k < kept@.len() && (#[trigger] kept@[k])@ == x;
                let j = choose|j: int| 0 <= j < versions@.len() && (#[trigger] versions@[j])@ == (#[trigger] kept@[k])@
                    && crate::arc::version::semver_req_matches(req@, versions@[j]@) == Some(true);
                assert(members(versions@).contains(x));
            }
        }
    }
    r
}

} // verus!

verus! {

/// The complement of the complement of a version set is the set itself.
pub proof fn law_complement_involutive(s: Set<VersionView>)
    ensures
        s.complement().complement() == s,
{
    assert(s.complement().complement() =~= s);
}

/// The union which a resolver derives from complement and intersection (De
/// Morgan's law) is the union of the sets.
pub proof fn law_derived_union(s: Set<VersionView>, t: Set<VersionView>)
    ensures
        s.complement().intersect(t.complement()).complement() == s.union(t),
{
    assert(s.complement().intersect(t.complement()).complement() =~= s.union(t));
}

/// A set which is intersected with its complement holds no version.
pub proof fn law_disjoint_from_complement(s: Set<VersionView>)
    ensures
        s.intersect(s.complement()) == Set::<VersionView>::empty(),
{
    assert(s.intersect(s.complement()) =~= Set::<VersionView>::empty());
}

} // verus!

verus! {

/// Checks that the version found in a package's manifest is the version
/// which the resolver asked for; any other version is not found.
pub fn check_requested_version(manifest_version: &PkgVersion, requested: &PkgVersion) -> (r: Result<(), DependencyError>)
    ensures
        r is Ok <==> manifest_version@ == requested@,
        r is Err ==> r matches Err(DependencyError::VersionNotFound),
{
    if manifest_version.same(requested) {
        Ok(())
    } else {
        Err(DependencyError::VersionNotFound)
    }
}

} // verus!
