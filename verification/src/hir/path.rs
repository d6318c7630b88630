//! Identifiers, paths and type references of the HIR.
use vstd::prelude::*;

use crate::span::{Location, NodeId, PackageId};

verus! {

/// A name, together with the location where it was written.
#[derive(Debug)]
pub struct Identifier {
    pub name: String,
    pub location: Location,
}

impl Clone for Identifier {
    fn clone(&self) -> (r: Self)
        ensures
            r == *self,
    {
        Identifier { name: self.name.clone(), location: self.location }
    }
}

impl Identifier {
    /// Creates an identifier without any source location.
    pub fn from_str(name: &str) -> (r: Identifier)
        ensures
            r.name@ == name@,
            r.location == Location::empty(),
    {
        Identifier { name: name.to_string(), location: Location::empty() }
    }

    /// The name of the identifier.
    pub fn as_str(&self) -> (r: &str)
        ensures
            r@ == self.name@,
    {
        self.name.as_str()
    }

    /// Whether both identifiers carry the same name; locations are ignored.
    pub fn eq(&self, other: &Identifier) -> (r: bool)
        ensures
            r == (self.name@ == other.name@),
    {
        self.name == other.name
    }
}

} // verus!

verus! {

/// A single segment of a [`Path`].
#[derive(Debug)]
pub enum PathSegment {
    /// A segment which refers to a namespace, such as `std` in `std::io::File`.
    Namespace { name: Identifier },
    /// A segment which refers to a type, optionally with type arguments.
    Type { name: Identifier, bound_types: Vec<Type>, location: Location },
    /// A segment which refers to a callable, such as a function or method.
    Callable { name: Identifier, bound_types: Vec<Type>, location: Location },
    /// A segment which refers to an enum variant.
    Variant { name: Identifier, location: Location },
    /// A segment which could not be parsed.
    Missing,
}

/// A path to some item, such as `std::io::File::open`.
#[derive(Debug)]
pub struct Path {
    pub root: Vec<PathSegment>,
    pub name: PathSegment,
    pub location: Location,
}

/// Uniquely identifies a single HIR type.
#[derive(Clone, Copy, Debug, PartialEq, Eq, Structural, Hash)]
pub struct TypeId(pub NodeId);

impl TypeId {
    /// The identifier of the node which defines the type.
    pub fn as_node_id(self) -> (r: NodeId)
        ensures
            r == self.0,
    {
        self.0
    }
}

/// A reference to a type, written somewhere in the source code.
#[derive(Debug)]
pub struct Type {
    pub id: TypeId,
    pub name: Path,
    pub self_type: bool,
    pub location: Location,
}

/// Mathematical model of a [`PathSegment`], with lists as sequences.
pub enum SegmentView {
    Namespace { name: Identifier },
    Type { name: Identifier, bound_types: Seq<TypeView>, location: Location },
    Callable { name: Identifier, bound_types: Seq<TypeView>, location: Location },
    Variant { name: Identifier, location: Location },
    Missing,
}

/// Mathematical model of a [`Path`].
pub struct PathView {
    pub root: Seq<SegmentView>,
    pub name: SegmentView,
    pub location: Location,
}

/// Mathematical model of a [`Type`].
pub struct TypeView {
    pub id: TypeId,
    pub name: PathView,
    pub self_type: bool,
    pub location: Location,
}

/// The model of a type.
pub open spec fn type_view(t: Type) -> TypeView
    decreases t,
{
    TypeView { id: t.id, name: path_view(t.name), self_type: t.self_type, location: t.location }
}

/// The model of a path.
pub open spec fn path_view(p: Path) -> PathView
    decreases p,
{
    PathView { root: segments_view(p.root@), name: segment_view(p.name), location: p.location }
}

/// The model of a path segment.
pub open spec fn segment_view(s: PathSegment) -> SegmentView
    decreases s,
{
    match s {
        PathSegment::Namespace { name } => SegmentView::Namespace { name },
        PathSegment::Type { name, bound_types, location } => SegmentView::Type {
            name,
            bound_types: types_view(bound_types@),
            location,
        },
        PathSegment::Callable { name, bound_types, location } => SegmentView::Callable {
            name,
            bound_types: types_view(bound_types@),
            location,
        },
        PathSegment::Variant { name, location } => SegmentView::Variant { name, location },
        PathSegment::Missing => SegmentView::Missing,
    }
}

/// The model of a list of types.
pub open spec fn types_view(s: Seq<Type>) -> Seq<TypeView>
    decreases s,
{
    if s.len() == 0 {
        Seq::empty()
    } else {
        types_view(s.drop_last()).push(type_view(s.last()))
    }
}

/// The model of a list of path segments.
pub open spec fn segments_view(s: Seq<PathSegment>) -> Seq<SegmentView>
    decreases s,
{
    if s.len() == 0 {
        Seq::empty()
    } else {
        segments_view(s.drop_last()).push(segment_view(s.last()))
    }
}

/// The models of a list of types are the models of its elements.
pub proof fn lemma_types_view(s: Seq<Type>)
    ensures
        types_view(s).len() == s.len(),
        forall|i: int| 0 <= i < s.len() ==> #[trigger] types_view(s)[i] == type_view(s[i]),
    decreases s.len(),
{
    if s.len() > 0 {
        lemma_types_view(s.drop_last());
    }
}

/// The models of a list of segments are the models of its elements.
pub proof fn lemma_segments_view(s: Seq<PathSegment>)
    ensures
        segments_view(s).len() == s.len(),
        forall|i: int| 0 <= i < s.len() ==> #[trigger] segments_view(s)[i] == segment_view(s[i]),
    decreases s.len(),
{
    if s.len() > 0 {
        lemma_segments_view(s.drop_last());
    }
}

impl View for Type {
    type V = TypeView;

    open spec fn view(&self) -> TypeView {
        type_view(*self)
    }
}

impl View for Path {
    type V = PathView;

    open spec fn view(&self) -> PathView {
        path_view(*self)
    }
}

impl View for PathSegment {
    type V = SegmentView;

    open spec fn view(&self) -> SegmentView {
        segment_view(*self)
    }
}

/// Deep copy of a type.
pub fn clone_type(t: &Type) -> (r: Type)
    ensures
        r@ == t@,
    decreases t,
{
    Type { id: t.id, name: clone_path(&t.name), self_type: t.self_type, location: t.location }
}

/// Deep copy of a path.
pub fn clone_path(p: &Path) -> (r: Path)
    ensures
        r@ == p@,
    decreases p,
{
    let root = clone_segments(&p.root);
    proof {
        lemma_segments_view(root@);
        lemma_segments_view(p.root@);
        assert(segments_view(root@) =~= segments_view(p.root@));
    }
    Path { root, name: clone_segment(&p.name), location: p.location }
}

/// Deep copy of a path segment.
pub fn clone_segment(s: &PathSegment) -> (r: PathSegment)
    ensures
        r@ == s@,
    decreases s,
{
    match s {
        PathSegment::Namespace { name } => PathSegment::Namespace { name: name.clone() },
        PathSegment::Type { name, bound_types, location } => {
            let b = clone_types(bound_types);
            proof {
                lemma_types_view(b@);
                lemma_types_view(bound_types@);
                assert(types_view(b@) =~= types_view(bound_types@));
            }
            PathSegment::Type { name: name.clone(), bound_types: b, location: *location }
        },
        PathSegment::Callable { name, bound_types, location } => {
            let b = clone_types(bound_types);
            proof {
                lemma_types_view(b@);
                lemma_types_view(bound_types@);
                assert(types_view(b@) =~= types_view(bound_types@));
            }
            PathSegment::Callable { name: name.clone(), bound_types: b, location: *location }
        },
        PathSegment::Variant { name, location } => PathSegment::Variant {
            name: name.clone(),
            location: *location,
        },
        PathSegment::Missing => PathSegment::Missing,
    }
}

/// Deep copy of a list of types.
pub fn clone_types(v: &Vec<Type>) -> (r: Vec<Type>)
    ensures
        r@.len() == v@.len(),
        forall|i: int| 0 <= i < v@.len() ==> (#[trigger] r@[i])@ == v@[i]@,
    decreases v,
{
    let mut r: Vec<Type> = Vec::new();
    let mut i: usize = 0;
    while i < v.len()
        invariant
            i <= v.len(),
            r@.len() == i,
            forall|j: int| 0 <= j < i ==> (#[trigger] r@[j])@ == v@[j]@,
        decreases v.len() - i,
    {
        proof {
            assert(decreases_to!(v => v@[i as int]));
        }
        r.push(clone_type(&v[i]));
        i = i + 1;
    }
    r
}

/// Deep copy of a list of path segments.
pub fn clone_segments(v: &Vec<PathSegment>) -> (r: Vec<PathSegment>)
    ensures
        r@.len() == v@.len(),
        forall|i: int| 0 <= i < v@.len() ==> (#[trigger] r@[i])@ == v@[i]@,
    decreases v,
{
    let mut r: Vec<PathSegment> = Vec::new();
    let mut i: usize = 0;
    while i < v.len()
        invariant
            i <= v.len(),
            r@.len() == i,
            forall|j: int| 0 <= j < i ==> (#[trigger] r@[j])@ == v@[j]@,
        decreases v.len() - i,
    {
        proof {
            assert(decreases_to!(v => v@[i as int]));
        }
        r.push(clone_segment(&v[i]));
        i = i + 1;
    }
    r
}

impl Clone for Type {
    fn clone(&self) -> (r: Self)
        ensures
            r@ == self@,
    {
        clone_type(self)
    }
}

impl Clone for Path {
    fn clone(&self) -> (r: Self)
        ensures
            r@ == self@,
    {
        clone_path(self)
    }
}

impl Clone for PathSegment {
    fn clone(&self) -> (r: Self)
        ensures
            r@ == self@,
    {
        clone_segment(self)
    }
}

} // verus!

verus! {

impl SegmentView {
    /// The text of the segment's name; empty for a missing segment.
    pub open spec fn name_str(self) -> Seq<char> {
        match self {
            SegmentView::Namespace { name } => name.name@,
            SegmentView::Type { name, .. } => name.name@,
            SegmentView::Callable { name, .. } => name.name@,
            SegmentView::Variant { name, .. } => name.name@,
            SegmentView::Missing => Seq::empty(),
        }
    }

    /// Where the segment's name was written; empty for a missing segment.
    pub open spec fn name_location(self) -> Location {
        match self {
            SegmentView::Namespace { name } => name.location,
            SegmentView::Type { name, .. } => name.location,
            SegmentView::Callable { name, .. } => name.location,
            SegmentView::Variant { name, .. } => name.location,
            SegmentView::Missing => Location::spec_empty(),
        }
    }

    /// The type arguments bound to the segment.
    pub open spec fn bound(self) -> Seq<TypeView> {
        match self {
            SegmentView::Type { bound_types, .. } => bound_types,
            SegmentView::Callable { bound_types, .. } => bound_types,
            _ => Seq::empty(),
        }
    }

    /// Where the whole segment was written.
    pub open spec fn seg_location(self) -> Location {
        match self {
            SegmentView::Namespace { name } => name.location,
            SegmentView::Type { location, .. } => location,
            SegmentView::Callable { location, .. } => location,
            SegmentView::Variant { location, .. } => location,
            SegmentView::Missing => Location::spec_empty(),
        }
    }

    /// The same segment with its type arguments replaced; segments which
    /// cannot carry type arguments are unchanged.
    pub open spec fn with_bound(self, types: Seq<TypeView>) -> SegmentView {
        match self {
            SegmentView::Type { name, location, .. } => SegmentView::Type {
                name,
                bound_types: types,
                location,
            },
            SegmentView::Callable { name, location, .. } => SegmentView::Callable {
                name,
                bound_types: types,
                location,
            },
            _ => self,
        }
    }
}

/// The smallest start offset among the names of the given segments.
pub open spec fn min_name_start(root: Seq<SegmentView>) -> Option<usize>
    decreases root.len(),
{
    if root.len() == 0 {
        None
    } else {
        let last = root.last().name_location().start;
        match min_name_start(root.drop_last()) {
            None => Some(last),
            Some(m) => Some(if last < m { last } else { m }),
        }
    }
}

/// All type arguments of the given segments, in order.
pub open spec fn flat_bound(segments: Seq<SegmentView>) -> Seq<TypeView>
    decreases segments.len(),
{
    if segments.len() == 0 {
        Seq::empty()
    } else {
        flat_bound(segments.drop_last()) + segments.last().bound()
    }
}

impl PathView {
    /// All segments of the path: the root followed by the name.
    pub open spec fn segments(self) -> Seq<SegmentView> {
        self.root.push(self.name)
    }

    /// The location spanning from the first segment's name to the end of the
    /// last segment.
    pub open spec fn span(self) -> Location {
        Location {
            file: self.name.name_location().file,
            start: if self.root.len() > 0 {
                self.root[0].name_location().start
            } else {
                self.name.name_location().start
            },
            end: self.name.seg_location().end,
        }
    }

    /// The path which contains the current one, if the path has a root.
    pub open spec fn parent(self) -> Option<PathView> {
        if self.root.len() == 0 {
            None
        } else {
            Some(
                PathView {
                    name: self.root.last(),
                    root: self.root.drop_last(),
                    location: self.span(),
                },
            )
        }
    }

    /// The path `base::end`.
    pub open spec fn join(base: PathView, end: PathView) -> PathView {
        let root = base.segments() + end.root;
        PathView {
            root,
            name: end.name,
            location: Location {
                start: match min_name_start(root) {
                    Some(m) => m,
                    None => base.location.start,
                },
                ..base.location
            },
        }
    }

    /// Whether two paths agree on the names of all their segments.
    pub open spec fn names_match(self, other: PathView) -> bool {
        &&& self.roots_match(other)
        &&& self.name.name_str() == other.name.name_str()
    }

    /// Whether both paths agree on the names of their root segments.
    pub open spec fn roots_match(self, other: PathView) -> bool {
        &&& self.root.len() == other.root.len()
        &&& forall|i: int|
            0 <= i < self.root.len() ==> #[trigger] self.root[i].name_str()
                == other.root[i].name_str()
    }
}

} // verus!

verus! {

impl PathSegment {
    /// Creates a new namespace segment with the given name.
    pub fn namespace(name: Identifier) -> (r: PathSegment)
        ensures
            r@ == (SegmentView::Namespace { name }),
    {
        PathSegment::Namespace { name }
    }

    /// Creates a new type segment with the given name and no type arguments.
    pub fn ty(name: Identifier) -> (r: PathSegment)
        ensures
            r@ == (SegmentView::Type { location: name.location, name, bound_types: Seq::empty() }),
    {
        let location = name.location;
        let r = PathSegment::Type { location, name, bound_types: Vec::new() };
        proof {
            assert(types_view(Seq::<Type>::empty()) =~= Seq::<TypeView>::empty());
        }
        r
    }

    /// Creates a new callable segment with the given name and no type
    /// arguments.
    pub fn callable(name: Identifier) -> (r: PathSegment)
        ensures
            r@ == (SegmentView::Callable {
                location: name.location,
                name,
                bound_types: Seq::empty(),
            }),
    {
        let location = name.location;
        let r = PathSegment::Callable { location, name, bound_types: Vec::new() };
        proof {
            assert(types_view(Seq::<Type>::empty()) =~= Seq::<TypeView>::empty());
        }
        r
    }

    /// Creates a new variant segment with the given name.
    pub fn variant(name: Identifier) -> (r: PathSegment)
        ensures
            r@ == (SegmentView::Variant { location: name.location, name }),
    {
        let location = name.location;
        PathSegment::Variant { location, name }
    }

    /// The name of the segment; a missing segment has an empty name without
    /// location.
    pub fn name(&self) -> (r: Identifier)
        ensures
            r.name@ == self@.name_str(),
            r.location == self@.name_location(),
    {
        match self {
            PathSegment::Namespace { name } => name.clone(),
            PathSegment::Type { name, .. } => name.clone(),
            PathSegment::Callable { name, .. } => name.clone(),
            PathSegment::Variant { name, .. } => name.clone(),
            PathSegment::Missing => Identifier { name: String::new(), location: Location::empty() },
        }
    }

    /// The name of the segment as text.
    pub fn as_str(&self) -> (r: &str)
        ensures
            r@ == self@.name_str(),
    {
        match self {
            PathSegment::Namespace { name } => name.name.as_str(),
            PathSegment::Type { name, .. } => name.name.as_str(),
            PathSegment::Callable { name, .. } => name.name.as_str(),
            PathSegment::Variant { name, .. } => name.name.as_str(),
            PathSegment::Missing => {
                proof {
                    reveal_strlit("");
                }
                ""
            },
        }
    }

    /// The type arguments bound to the segment.
    pub fn bound_types(&self) -> (r: &[Type])
        ensures
            types_view(r@) == self@.bound(),
    {
        match self {
            PathSegment::Type { bound_types, .. } => bound_types.as_slice(),
            PathSegment::Callable { bound_types, .. } => bound_types.as_slice(),
            _ => {
                let r: &[Type] = &[];
                proof {
                    assert(r@ =~= Seq::<Type>::empty());
                }
                r
            },
        }
    }

    /// Takes the type arguments out of the segment.
    pub fn take_bound_types(self) -> (r: Vec<Type>)
        ensures
            types_view(r@) == self@.bound(),
    {
        match self {
            PathSegment::Type { bound_types, .. } => bound_types,
            PathSegment::Callable { bound_types, .. } => bound_types,
            _ => {
                let r: Vec<Type> = Vec::new();
                proof {
                    assert(types_view(r@) =~= Seq::<TypeView>::empty());
                }
                r
            },
        }
    }

    /// Replaces the type argument at `idx`, or appends the type when the
    /// segment has no more than `idx` type arguments.
    pub fn put_bound_type(&mut self, idx: usize, ty: Type)
        ensures
            final(self)@ == old(self)@.with_bound(
                if old(self)@.bound().len() <= idx {
                    old(self)@.bound().push(ty@)
                } else {
                    old(self)@.bound().update(idx as int, ty@)
                },
            ),
    {
        match self {
            PathSegment::Type { bound_types, .. } => put_type_at(bound_types, idx, ty),
            PathSegment::Callable { bound_types, .. } => put_type_at(bound_types, idx, ty),
            _ => {},
        }
    }

    /// Replaces all type arguments of the segment, returning the previous
    /// ones; segments which cannot carry type arguments return none.
    pub fn place_bound_types(&mut self, types: Vec<Type>) -> (r: Vec<Type>)
        ensures
            final(self)@ == old(self)@.with_bound(types_view(types@)),
            types_view(r@) == old(self)@.bound(),
    {
        match self {
            PathSegment::Type { bound_types, .. } => {
                let mut types = types;
                std::mem::swap(bound_types, &mut types);
                types
            },
            PathSegment::Callable { bound_types, .. } => {
                let mut types = types;
                std::mem::swap(bound_types, &mut types);
                types
            },
            _ => {
                let r: Vec<Type> = Vec::new();
                proof {
                    assert(types_view(r@) =~= Seq::<TypeView>::empty());
                }
                r
            },
        }
    }

    /// Where the whole segment was written.
    pub fn location(&self) -> (r: Location)
        ensures
            r == self@.seg_location(),
    {
        match self {
            PathSegment::Namespace { name } => name.location,
            PathSegment::Type { location, .. } => *location,
            PathSegment::Callable { location, .. } => *location,
            PathSegment::Variant { location, .. } => *location,
            PathSegment::Missing => Location::empty(),
        }
    }

    /// Whether two segments carry the same name.
    pub fn name_eq(&self, other: &PathSegment) -> (r: bool)
        ensures
            r == (self@.name_str() == other@.name_str()),
    {
        let a = self.as_str();
        let b = other.as_str();
        str_eq(a, b)
    }
}

/// Replaces the type at `idx`, or appends it when the list is not longer
/// than `idx`.
fn put_type_at(v: &mut Vec<Type>, idx: usize, ty: Type)
    ensures
        types_view(final(v)@) == (if types_view(old(v)@).len() <= idx {
            types_view(old(v)@).push(ty@)
        } else {
            types_view(old(v)@).update(idx as int, ty@)
        }),
{
    let ghost old_bound = types_view(v@);
    proof {
        lemma_types_view(v@);
    }
    if v.len() <= idx {
        v.push(ty);
    } else {
        v.set(idx, ty);
    }
    proof {
        lemma_types_view(v@);
        if old_bound.len() <= idx {
            assert(types_view(v@) =~= old_bound.push(ty@));
        } else {
            assert(types_view(v@) =~= old_bound.update(idx as int, ty@));
        }
    }
}

/// Whether two strings hold the same text.
pub fn str_eq(a: &str, b: &str) -> (r: bool)
    ensures
        r == (a@ == b@),
{
    let x = a.to_string();
    let y = b.to_string();
    x == y
}

} // verus!

verus! {

/// The smallest start offset among the names of the given segments.
fn root_min_start(root: &Vec<PathSegment>) -> (r: Option<usize>)
    ensures
        r == min_name_start(segments_view(root@)),
{
    proof {
        lemma_segments_view(root@);
    }
    let mut best: Option<usize> = None;
    let mut i: usize = 0;
    while i < root.len()
        invariant
            i <= root.len(),
            segments_view(root@).len() == root@.len(),
            forall|j: int| 0 <= j < root@.len() ==> #[trigger] segments_view(root@)[j] == segment_view(root@[j]),
            best == min_name_start(segments_view(root@).subrange(0, i as int)),
        decreases root.len() - i,
    {
        let start = root[i].name().location.start;
        proof {
            let sv = segments_view(root@);
            assert(sv.subrange(0, i + 1).drop_last() =~= sv.subrange(0, i as int));
        }
        best = match best {
            None => Some(start),
            Some(m) => Some(if start < m { start } else { m }),
        };
        i = i + 1;
    }
    proof {
        assert(segments_view(root@).subrange(0, root@.len() as int) =~= segments_view(root@));
    }
    best
}

impl Path {
    /// Creates a path from its root segments and final segment; the location
    /// starts at the earliest root segment name.
    pub fn new(root: Vec<PathSegment>, name: PathSegment) -> (r: Path)
        ensures
            r@.root == segments_view(root@),
            r@.name == name@,
            r@.location == (Location {
                start: match min_name_start(segments_view(root@)) {
                    Some(m) => m,
                    None => name@.seg_location().start,
                },
                ..name@.seg_location()
            }),
    {
        let mut location = name.location();
        match root_min_start(&root) {
            Some(m) => location.start = m,
            None => {},
        }
        Path { root, name, location }
    }

    /// Creates a path without any root segments.
    pub fn rooted(name: PathSegment) -> (r: Path)
        ensures
            r@.root == Seq::<SegmentView>::empty(),
            r@.name == name@,
            r@.location == name@.seg_location(),
    {
        let location = name.location();
        let r = Path { root: Vec::new(), location, name };
        proof {
            assert(segments_view(Seq::<PathSegment>::empty()) =~= Seq::<SegmentView>::empty());
        }
        r
    }

    /// Creates a path from optional root segments and a final segment.
    pub fn from_parts(root: Option<Vec<PathSegment>>, name: PathSegment) -> (r: Path)
        ensures
            r@.root == match root {
                Some(v) => segments_view(v@),
                None => Seq::<SegmentView>::empty(),
            },
            r@.name == name@,
            r@.location == name@.seg_location(),
    {
        let location = name.location();
        let root = match root {
            Some(v) => v,
            None => Vec::new(),
        };
        proof {
            assert(segments_view(Seq::<PathSegment>::empty()) =~= Seq::<SegmentView>::empty());
        }
        Path { root, location, name }
    }

    /// Creates the path `base::name`, keeping the location of `base`.
    pub fn with_root(base: Path, name: PathSegment) -> (r: Path)
        ensures
            r@.root == base@.segments(),
            r@.name == name@,
            r@.location == base@.location,
    {
        let location = base.location;
        let root = base.as_root();
        Path { root, name, location }
    }

    /// All segments of the path, as a list of root segments.
    pub fn as_root(self) -> (r: Vec<PathSegment>)
        ensures
            segments_view(r@) == self@.segments(),
    {
        let mut root = self.root;
        let ghost old_root = root@;
        root.push(self.name);
        proof {
            assert(root@.drop_last() =~= old_root);
        }
        root
    }

    /// Joins two paths: the segments of `base` followed by those of `end`.
    pub fn join(base: Path, end: Path) -> (r: Path)
        ensures
            r@ == PathView::join(base@, end@),
    {
        let mut location = base.location;
        let mut root = base.as_root();
        let ghost base_root = root@;
        let mut end_root = end.root;
        let ghost end_root_seq = end_root@;
        root.append(&mut end_root);
        proof {
            lemma_segments_view(base_root);
            lemma_segments_view(end_root_seq);
            lemma_segments_view(root@);
            assert(segments_view(root@) =~= segments_view(base_root) + segments_view(end_root_seq));
        }
        match root_min_start(&root) {
            Some(m) => location.start = m,
            None => {},
        }
        Path { root, name: end.name, location }
    }

    /// The location spanning from the first segment's name to the end of the
    /// final segment.
    pub fn location(&self) -> (r: Location)
        ensures
            r == self@.span(),
    {
        let name_ident = self.name.name();
        let start = if self.root.len() > 0 {
            proof {
                lemma_segments_view(self.root@);
            }
            self.root[0].name().location.start
        } else {
            name_ident.location.start
        };
        let end = self.name.location().end;
        Location { file: name_ident.location.file, start, end }
    }

    /// The path which contains the current one: `std::io::File` for
    /// `std::io::File::open`; `None` when the path has no root.
    pub fn parent(self) -> (r: Option<Path>)
        ensures
            match r {
                Some(p) => self@.parent() == Some(p@),
                None => self@.parent() is None,
            },
    {
        let location = self.location();
        let mut root = self.root;
        let ghost old_root = root@;
        match root.pop() {
            Some(name) => {
                proof {
                    lemma_segments_view(old_root);
                    lemma_segments_view(root@);
                    assert(segments_view(root@) =~= segments_view(old_root).drop_last());
                }
                Some(Path { name, root, location })
            },
            None => None,
        }
    }

    /// The name of the final segment.
    pub fn name(&self) -> (r: Identifier)
        ensures
            r.name@ == self@.name.name_str(),
            r.location == self@.name.name_location(),
    {
        self.name.name()
    }

    /// References to all segments: the root followed by the name.
    pub fn segments(&self) -> (r: Vec<&PathSegment>)
        ensures
            r@.len() == self.root@.len() + 1,
            forall|i: int| 0 <= i < self.root@.len() ==> *(#[trigger] r@[i]) == self.root@[i],
            *r@[self.root@.len() as int] == self.name,
    {
        let mut r: Vec<&PathSegment> = Vec::new();
        let mut i: usize = 0;
        while i < self.root.len()
            invariant
                i <= self.root.len(),
                r@.len() == i,
                forall|j: int| 0 <= j < i ==> *(#[trigger] r@[j]) == self.root@[j],
            decreases self.root.len() - i,
        {
            r.push(&self.root[i]);
            i = i + 1;
        }
        r.push(&self.name);
        r
    }

    /// The type arguments of the final segment.
    pub fn bound_types(&self) -> (r: &[Type])
        ensures
            types_view(r@) == self@.name.bound(),
    {
        self.name.bound_types()
    }

    /// Replaces the type arguments of the final segment, returning the
    /// previous ones.
    pub fn place_bound_types(&mut self, types: Vec<Type>) -> (r: Vec<Type>)
        ensures
            final(self)@ == (PathView { name: old(self)@.name.with_bound(types_view(types@)), ..old(self)@ }),
            types_view(r@) == old(self)@.name.bound(),
    {
        self.name.place_bound_types(types)
    }

    /// The type arguments of all segments, in order.
    pub fn all_bound_types(&self) -> (r: Vec<Type>)
        ensures
            types_view(r@) == flat_bound(self@.segments()),
    {
        let mut args = self.all_root_bound_types();
        let ghost before = args@;
        let last = self.name.bound_types();
        let mut i: usize = 0;
        while i < last.len()
            invariant
                i <= last@.len(),
                args@.len() == before.len() + i,
                forall|j: int| 0 <= j < before.len() ==> #[trigger] args@[j] == before[j],
                forall|j: int| 0 <= j < i ==> args@[before.len() + j]@ == (#[trigger] last@[j])@,
            decreases last.len() - i,
        {
            args.push(clone_type(&last[i]));
            i = i + 1;
        }
        proof {
            lemma_types_view(before);
            lemma_types_view(last@);
            lemma_types_view(args@);
            assert(self@.segments().drop_last() =~= self@.root);
            assert forall|m: int| 0 <= m < args@.len() implies #[trigger] types_view(args@)[m]
                == (types_view(before) + types_view(last@))[m] by {
                if m >= before.len() {
                    assert(args@[m]@ == last@[m - before.len()]@);
                }
            }
            assert(types_view(args@) =~= types_view(before) + types_view(last@));
        }
        args
    }

    /// The type arguments of all root segments, in order.
    pub fn all_root_bound_types(&self) -> (r: Vec<Type>)
        ensures
            types_view(r@) == flat_bound(self@.root),
    {
        let mut args: Vec<Type> = Vec::new();
        let mut i: usize = 0;
        proof {
            lemma_segments_view(self.root@);
        }
        while i < self.root.len()
            invariant
                i <= self.root@.len(),
                segments_view(self.root@).len() == self.root@.len(),
                forall|j: int| 0 <= j < self.root@.len() ==> #[trigger] segments_view(self.root@)[j] == segment_view(self.root@[j]),
                types_view(args@) == flat_bound(segments_view(self.root@).subrange(0, i as int)),
            decreases self.root.len() - i,
        {
            let seg = self.root[i].bound_types();
            let ghost before = args@;
            let mut k: usize = 0;
            while k < seg.len()
                invariant
                    k <= seg@.len(),
                    args@.len() == before.len() + k,
                    forall|j: int| 0 <= j < before.len() ==> #[trigger] args@[j] == before[j],
                    forall|j: int| 0 <= j < k ==> args@[before.len() + j]@ == (#[trigger] seg@[j])@,
                decreases seg.len() - k,
            {
                args.push(clone_type(&seg[k]));
                k = k + 1;
            }
            proof {
                lemma_types_view(before);
                lemma_types_view(seg@);
                lemma_types_view(args@);
                let sv = segments_view(self.root@);
                assert(sv.subrange(0, i + 1).drop_last() =~= sv.subrange(0, i as int));
                assert forall|m: int| 0 <= m < args@.len() implies #[trigger] types_view(args@)[m]
                    == (types_view(before) + types_view(seg@))[m] by {
                    if m >= before.len() {
                        assert(args@[m]@ == seg@[m - before.len()]@);
                    }
                }
                assert(types_view(args@) =~= types_view(before) + types_view(seg@));
            }
            i = i + 1;
        }
        proof {
            assert(segments_view(self.root@).subrange(0, self.root@.len() as int) =~= segments_view(self.root@));
        }
        args
    }

    /// Whether the path refers to a type.
    pub fn is_type(&self) -> (r: bool)
        ensures
            r == (self@.name is Type),
    {
        match self.name {
            PathSegment::Type { .. } => true,
            _ => false,
        }
    }

    /// Whether the path refers to an enum variant.
    pub fn is_variant(&self) -> (r: bool)
        ensures
            r == (self@.name is Variant),
    {
        match self.name {
            PathSegment::Variant { .. } => true,
            _ => false,
        }
    }

    /// Whether both paths agree on the names of their root segments; type
    /// arguments are not compared.
    pub fn roots_match(&self, other: &Path) -> (r: bool)
        ensures
            r == self@.roots_match(other@),
    {
        proof {
            lemma_segments_view(self.root@);
            lemma_segments_view(other.root@);
        }
        if self.root.len() != other.root.len() {
            return false;
        }
        let mut i: usize = 0;
        while i < self.root.len()
            invariant
                i <= self.root@.len(),
                self.root@.len() == other.root@.len(),
                segments_view(self.root@).len() == self.root@.len(),
                segments_view(other.root@).len() == other.root@.len(),
                forall|j: int| 0 <= j < self.root@.len() ==> #[trigger] segments_view(self.root@)[j] == segment_view(self.root@[j]),
                forall|j: int| 0 <= j < other.root@.len() ==> #[trigger] segments_view(other.root@)[j] == segment_view(other.root@[j]),
                forall|j: int| 0 <= j < i ==> #[trigger] self@.root[j].name_str() == other@.root[j].name_str(),
            decreases self.root.len() - i,
        {
            if !self.root[i].name_eq(&other.root[i]) {
                proof {
                    assert(self@.root[i as int] == segment_view(self.root@[i as int]));
                    assert(other@.root[i as int] == segment_view(other.root@[i as int]));
                }
                return false;
            }
            i = i + 1;
        }
        true
    }

    /// Whether both paths agree on the names of all segments; type arguments
    /// are not compared.
    pub fn is_name_match(&self, other: &Path) -> (r: bool)
        ensures
            r == self@.names_match(other@),
    {
        self.roots_match(other) && self.name.name_eq(&other.name)
    }
}

} // verus!

verus! {

/// Taking the parent of `base::name`, as built by [`Path::with_root`],
/// gives back the segments of `base`.
pub proof fn law_parent_undoes_with_root(base: PathView, name: SegmentView)
    ensures
        (PathView { root: base.segments(), name, location: base.location }).parent() matches Some(p)
            && p.root == base.root && p.name == base.name,
{
    let p = PathView { root: base.segments(), name, location: base.location };
    assert(p.root.drop_last() =~= base.root);
}

/// The segments of a joined path are those of the base followed by those
/// of the end.
pub proof fn law_join_segments(base: PathView, end: PathView)
    ensures
        PathView::join(base, end).segments() == base.segments() + end.segments(),
{
    assert(PathView::join(base, end).segments() =~= base.segments() + end.segments());
}

/// Matching paths by name is reflexive.
pub proof fn law_names_match_reflexive(a: PathView)
    ensures
        a.names_match(a),
{
}

/// Matching paths by name is symmetric.
pub proof fn law_names_match_symmetric(a: PathView, b: PathView)
    requires
        a.names_match(b),
    ensures
        b.names_match(a),
{
}

/// Matching paths by name is transitive.
pub proof fn law_names_match_transitive(a: PathView, b: PathView, c: PathView)
    requires
        a.names_match(b),
        b.names_match(c),
    ensures
        a.names_match(c),
{
    assert forall|i: int| 0 <= i < a.root.len() implies #[trigger] a.root[i].name_str() == c.root[i].name_str() by {
        assert(a.root[i].name_str() == b.root[i].name_str());
        assert(b.root[i].name_str() == c.root[i].name_str());
    }
}

} // verus!
