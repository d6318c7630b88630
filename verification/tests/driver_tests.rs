use lume::driver::{lowering_order, needs_compilation, CompiledExecutable, DirtyPackages, PackageStep, StageResult};
use lume::span::PackageId;

#[test]
fn compilation_is_needed_unless_the_hash_is_unchanged() {
    assert!(needs_compilation(false, Some(7), 7));
    assert!(needs_compilation(true, None, 7));
    assert!(needs_compilation(true, Some(6), 7));
    assert!(!needs_compilation(true, Some(7), 7));
}

#[test]
fn packages_are_lowered_in_reverse_graph_order() {
    let order = lowering_order(&vec![PackageId(1), PackageId(2), PackageId(3)]);
    assert_eq!(order, vec![PackageId(3), PackageId(2), PackageId(1)]);
    assert!(lowering_order(&vec![]).is_empty());
}

#[test]
fn dependents_of_a_changed_package_are_recompiled() {
    let mut dirty = DirtyPackages::new();
    assert!(dirty.may_use_cache(PackageId(5), false));
    assert!(!dirty.may_use_cache(PackageId(5), true));
    dirty.record_compilation(false, &vec![PackageId(5)]);
    assert!(dirty.may_use_cache(PackageId(5), false));
    dirty.record_compilation(true, &vec![PackageId(5), PackageId(6)]);
    assert!(!dirty.may_use_cache(PackageId(5), false));
    assert!(!dirty.may_use_cache(PackageId(6), false));
    assert!(dirty.may_use_cache(PackageId(7), false));
    assert!(dirty.contains(PackageId(6)));
}

#[test]
fn stage_results() {
    match StageResult::value(41u32) {
        StageResult::Value(v) => assert_eq!(*v, 41),
        StageResult::Cached { .. } => panic!("expected a value"),
    }
    let cached: StageResult<u32> = StageResult::Cached { bc_path: "obj/a.bc".to_string() };
    assert!(matches!(cached, StageResult::Cached { ref bc_path } if bc_path == "obj/a.bc"));
    let exe = CompiledExecutable { binary: "target/app".to_string() };
    assert_eq!(exe.binary, "target/app");
}

#[test]
fn packages_are_taken_from_the_cache_or_compiled() {
    let mut dirty = DirtyPackages::new();
    assert_eq!(dirty.step(PackageId(1), false, true, &vec![PackageId(2)]), PackageStep::Cached);
    assert!(!dirty.contains(PackageId(2)));
    assert_eq!(dirty.step(PackageId(1), false, false, &vec![PackageId(2)]), PackageStep::Compile);
    assert!(!dirty.contains(PackageId(2)));
    assert_eq!(dirty.step(PackageId(3), true, true, &vec![PackageId(2), PackageId(4)]), PackageStep::Compile);
    assert!(dirty.contains(PackageId(2)) && dirty.contains(PackageId(4)));
    assert_eq!(dirty.step(PackageId(2), false, true, &vec![]), PackageStep::Compile);
}
