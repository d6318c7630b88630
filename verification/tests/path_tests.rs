use lume::hir::path::{Identifier, Path, PathSegment};
use lume::hir::display::Signature;
use lume::hir::node::Parameter;
use lume::span::{Location, NodeId, PackageId};

fn ident(name: &str, start: usize) -> Identifier {
    Identifier {
        name: name.to_string(),
        location: Location { file: 1, start, end: start + name.len() },
    }
}

fn path_of(root: &[&str], name: &str) -> Path {
    let mut offset = 0;
    let mut segments = Vec::new();
    for r in root {
        segments.push(PathSegment::namespace(ident(r, offset)));
        offset += r.len() + 2;
    }
    Path::new(segments, PathSegment::ty(ident(name, offset)))
}

fn names(p: &Path) -> Vec<String> {
    p.segments().iter().map(|s| s.as_str().to_string()).collect()
}

#[test]
fn join_concatenates_segments() {
    let base = path_of(&["std", "io"], "File");
    let end = path_of(&["inner"], "open");
    let joined = Path::join(base, end);
    assert_eq!(names(&joined), vec!["std", "io", "File", "inner", "open"]);
}

#[test]
fn parent_undoes_with_root() {
    let base = path_of(&["std", "io"], "File");
    let child = Path::with_root(base, PathSegment::callable(ident("open", 20)));
    assert_eq!(names(&child), vec!["std", "io", "File", "open"]);
    let parent = child.parent().unwrap();
    assert_eq!(names(&parent), vec!["std", "io", "File"]);
}

#[test]
fn parent_of_rooted_path_is_none() {
    let p = Path::rooted(PathSegment::ty(ident("Int32", 0)));
    assert!(p.parent().is_none());
}

#[test]
fn name_match_ignores_locations_and_is_symmetric() {
    let a = path_of(&["std", "io"], "File");
    let mut b = path_of(&["std", "io"], "File");
    b.name = PathSegment::ty(ident("File", 100));
    assert!(a.is_name_match(&a));
    assert!(a.is_name_match(&b));
    assert!(b.is_name_match(&a));
    let c = path_of(&["std", "fs"], "File");
    assert!(!a.is_name_match(&c));
    let d = path_of(&["std"], "File");
    assert!(!a.is_name_match(&d));
}

#[test]
fn new_path_starts_at_first_root_segment() {
    let p = path_of(&["std", "io"], "File");
    let loc = p.location();
    assert_eq!(loc.start, 0);
    assert_eq!(loc.end, 9 + 4);
}

#[test]
fn segment_name_of_missing_is_empty() {
    assert_eq!(PathSegment::Missing.as_str(), "");
    assert_eq!(PathSegment::namespace(ident("std", 0)).as_str(), "std");
}

#[test]
fn identifier_equality_ignores_location() {
    let a = ident("x", 0);
    let b = ident("x", 10);
    assert!(a.eq(&b));
    assert!(!a.eq(&ident("y", 0)));
}

fn ty_named(name: &str, args: Vec<lume::hir::path::Type>) -> lume::hir::path::Type {
    let mut segment = PathSegment::ty(ident(name, 0));
    segment.place_bound_types(args);
    lume::hir::path::Type {
        id: lume::hir::path::TypeId(NodeId::new(PackageId(1), 5)),
        name: Path::rooted(segment),
        self_type: false,
        location: Location::empty(),
    }
}

#[test]
fn segments_are_written_with_their_type_arguments() {
    let inner = ty_named("Int32", vec![]);
    let map = ty_named("Map", vec![ty_named("String", vec![]), ty_named("Vec", vec![inner])]);
    assert_eq!(map.to_string(), "Map<String, Vec<Int32>>");
    assert_eq!(PathSegment::Missing.to_string(), "[missing]");
    assert_eq!(PathSegment::variant(ident("Some", 0)).to_string(), "Some");
}

#[test]
fn wide_paths_show_every_segment() {
    let p = path_of(&["std", "io"], "File");
    assert_eq!(p.to_wide_string(), "std::io::File");
    assert_eq!(p.to_string(), "File");
}

#[test]
fn signatures_are_written_like_declarations() {
    let param = |name: &str, i: usize| Parameter {
        id: NodeId::new(PackageId(1), 40 + i as u64),
        index: i,
        name: ident(name, 0),
        param_type: ty_named("Int32", vec![]),
        vararg: false,
        location: Location::empty(),
    };
    let name = ident("add", 0);
    let params = vec![param("self", 0), param("other", 1)];
    let type_params = vec![NodeId::new(PackageId(1), 12), NodeId::new(PackageId(1), 307)];
    let ret = ty_named("Int32", vec![]);
    let sig = Signature { name: &name, type_parameters: &type_params, parameters: &params, return_type: &ret };
    assert!(sig.is_instanced());
    let owned = sig.to_owned();
    assert_eq!(owned.to_string(), "fn add<12, 307>(self, other) -> Int32");
    let plain = Signature { name: &name, type_parameters: &[], parameters: &params[1..], return_type: &ret };
    assert!(!plain.is_instanced());
    assert_eq!(plain.to_owned().to_string(), "fn add(other) -> Int32");
}
