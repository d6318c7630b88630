use lume::hir::path::{Identifier, Path, PathSegment};
use lume::infer::{
    lookup_function_suggestions, lookup_method_suggestions, newcomer_type_name, suggests, zip_call_args,
    BlanketLookup, CallArgumentZipper, MAX_LEVENSHTEIN_DISTANCE,
};
use lume::span::Location;

fn ident(name: &str) -> Identifier {
    Identifier { name: name.to_string(), location: Location::empty() }
}

fn path(root: &[&str], name: &str) -> Path {
    Path::new(
        root.iter().map(|r| PathSegment::namespace(ident(r))).collect(),
        PathSegment::callable(ident(name)),
    )
}

#[test]
fn arguments_pair_with_parameters() {
    assert_eq!(zip_call_args(2, &vec![false, false]), vec![(0, 0), (1, 1)]);
    assert_eq!(zip_call_args(3, &vec![false, false]), vec![(0, 0), (1, 1)]);
    assert_eq!(zip_call_args(1, &vec![false, false]), vec![(0, 0)]);
    assert_eq!(zip_call_args(0, &vec![]), vec![]);
}

#[test]
fn variadic_parameter_takes_the_rest() {
    assert_eq!(zip_call_args(4, &vec![false, true]), vec![(0, 0), (1, 1), (1, 2), (1, 3)]);
    let mut zipper = CallArgumentZipper::create_from(2, &vec![true]);
    assert_eq!(zipper.next(), Some((0, 0)));
    assert_eq!(zipper.next(), Some((0, 1)));
    assert_eq!(zipper.next(), None);
    assert_eq!(zipper.next(), None);
}

#[test]
fn suggestions_are_close_but_different() {
    assert_eq!(MAX_LEVENSHTEIN_DISTANCE, 3);
    assert!(suggests("print", "prnt"));
    assert!(suggests("print", "pint"));
    assert!(!suggests("print", "print"));
    assert!(!suggests("print", "parse"));
    assert!(suggests("kitten", "sitten"));
    assert!(!suggests("kitten", "sitting"));
}

#[test]
fn function_suggestions_stay_in_the_namespace() {
    let name = path(&["std", "io"], "prnt");
    let functions = vec![
        path(&["std", "io"], "print"),
        path(&["std", "fs"], "print"),
        path(&["std", "io"], "prnt"),
        path(&["std", "io"], "read"),
        path(&["std", "io"], "prints"),
    ];
    assert_eq!(lookup_function_suggestions(&name, &functions), vec![0, 4]);
}

#[test]
fn method_suggestions() {
    let methods = vec![path(&["Vec"], "push"), path(&["Vec"], "pop"), path(&["Vec"], "len")];
    assert_eq!(lookup_method_suggestions(&ident("psh"), &methods), vec![0, 1]);
    assert_eq!(lookup_method_suggestions(&ident("length"), &methods), Vec::<usize>::new());
}

#[test]
fn newcomer_type_names() {
    assert_eq!(newcomer_type_name("i32"), Some("Int32"));
    assert_eq!(newcomer_type_name("int"), Some("Int32"));
    assert_eq!(newcomer_type_name("usize"), Some("UIntPtr"));
    assert_eq!(newcomer_type_name("boolean"), Some("Boolean"));
    assert_eq!(newcomer_type_name("f64"), Some("Double"));
    assert_eq!(newcomer_type_name("Int32"), None);
}

#[test]
fn blanket_lookup_variants() {
    assert_ne!(BlanketLookup::Include, BlanketLookup::Exclude);
}
