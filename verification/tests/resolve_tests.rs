use lume::arc::parser::{check_root_scheme, normalize_path_url, std_requirement, verify_lume_version, ManifestError};
use lume::arc::resolve::{
    check_requested_version, choose_version, compatible_versions, prioritize, DependencyError, FetchStep, PackageKey,
    PackagePaths, VersionSet,
};
use lume::arc::version::{parse_version, PkgVersion};

fn v(major: u64, minor: u64, patch: u64) -> PkgVersion {
    PkgVersion::new(major, minor, patch)
}

fn text(p: &PkgVersion) -> String {
    let mut s = format!("{}.{}.{}", p.major, p.minor, p.patch);
    if !p.pre.is_empty() {
        s.push('-');
        s.push_str(&p.pre);
    }
    s
}

#[test]
fn version_set_operations() {
    let set = VersionSet::from_versions(vec![v(1, 0, 0), v(2, 0, 0), v(1, 0, 0)]);
    assert!(set.contains(&v(1, 0, 0)));
    assert!(set.contains(&v(2, 0, 0)));
    assert!(!set.contains(&v(3, 0, 0)));

    let complement = set.complement();
    assert!(!complement.contains(&v(1, 0, 0)));
    assert!(complement.contains(&v(3, 0, 0)));
    assert!(complement.complement().contains(&v(2, 0, 0)));

    let empty = VersionSet::empty();
    assert!(!empty.contains(&v(0, 0, 0)));
    assert!(empty.complement().contains(&v(9, 9, 9)));

    let single = VersionSet::singleton(v(1, 2, 3));
    assert!(single.contains(&v(1, 2, 3)));
    assert!(!single.contains(&v(1, 2, 4)));
}

#[test]
fn intersections_of_all_kinds() {
    let a = VersionSet::from_versions(vec![v(1, 0, 0), v(2, 0, 0), v(3, 0, 0)]);
    let b = VersionSet::from_versions(vec![v(2, 0, 0), v(3, 0, 0), v(4, 0, 0)]);
    let both = a.intersection(&b);
    assert!(!both.contains(&v(1, 0, 0)));
    assert!(both.contains(&v(2, 0, 0)));
    assert!(!both.contains(&v(4, 0, 0)));

    let not_b = b.complement();
    let only_a = a.intersection(&not_b);
    assert!(only_a.contains(&v(1, 0, 0)));
    assert!(!only_a.contains(&v(2, 0, 0)));
    let only_a2 = not_b.intersection(&a);
    assert!(only_a2.contains(&v(1, 0, 0)));
    assert!(!only_a2.contains(&v(5, 0, 0)));

    let neither = a.complement().intersection(&not_b);
    assert!(neither.contains(&v(5, 0, 0)));
    assert!(!neither.contains(&v(1, 0, 0)));
    assert!(!neither.contains(&v(4, 0, 0)));

    let disjoint = a.intersection(&a.complement());
    assert!(!disjoint.contains(&v(1, 0, 0)));
    assert!(!disjoint.contains(&v(7, 0, 0)));
}

#[test]
fn choose_version_takes_the_largest_admitted() {
    let versions = vec![v(1, 0, 0), v(2, 1, 0), v(1, 5, 0)];
    let all = VersionSet::empty().complement();
    assert_eq!(text(&choose_version(&versions, &all).unwrap()), "2.1.0");
    let some = VersionSet::from_versions(vec![v(1, 0, 0), v(1, 5, 0)]);
    assert_eq!(text(&choose_version(&versions, &some).unwrap()), "1.5.0");
    assert!(choose_version(&versions, &VersionSet::empty()).is_none());
}

#[test]
fn prerelease_orders_before_release() {
    let pre = PkgVersion { major: 1, minor: 0, patch: 0, pre: "alpha".to_string(), build: String::new() };
    let versions = vec![v(1, 0, 0), pre];
    let all = VersionSet::empty().complement();
    assert_eq!(text(&choose_version(&versions, &all).unwrap()), "1.0.0");
}

#[test]
fn compatible_versions_follow_the_requirement() {
    let versions = vec![v(1, 0, 0), v(1, 4, 2), v(2, 0, 0)];
    let caret = compatible_versions("^1.2", &versions);
    assert!(!caret.contains(&v(1, 0, 0)));
    assert!(caret.contains(&v(1, 4, 2)));
    assert!(!caret.contains(&v(2, 0, 0)));
    let invalid = compatible_versions("not a requirement", &versions);
    assert!(!invalid.contains(&v(1, 0, 0)));
}

#[test]
fn prioritize_by_conflicts_and_first_admitted() {
    let versions = vec![v(1, 0, 0), v(2, 0, 0)];
    let range = VersionSet::singleton(v(2, 0, 0));
    let (count, version) = prioritize(Some(&versions), &range, 3);
    assert_eq!(count, 3);
    assert_eq!(text(&version), "2.0.0");
    let (count, version) = prioritize(Some(&versions), &VersionSet::empty(), 3);
    assert_eq!(count, u32::MAX);
    assert_eq!(text(&version), "0.0.0");
    let (count, _) = prioritize(None, &range, 3);
    assert_eq!(count, u32::MAX);
}

#[test]
fn package_key_text() {
    assert_eq!(PackageKey::Local("/a/b".to_string()).to_string(), "/a/b");
    let git = PackageKey::Git { repository: "https://x/y".to_string(), rev: "abc".to_string(), dir: None };
    assert_eq!(git.to_string(), "https://x/y");
}

#[test]
fn lume_version_requirements() {
    let current = v(0, 5, 1);
    assert!(verify_lume_version(None, &current).is_ok());
    assert!(verify_lume_version(Some(">=0.5"), &current).is_ok());
    match verify_lume_version(Some("^1.0"), &current) {
        Err(ManifestError::IncompatibleLumeVersion { current: c, required }) => {
            assert_eq!(text(&c), "0.5.1");
            assert_eq!(required, "^1.0");
        }
        _ => panic!("expected an incompatible version"),
    }
    match verify_lume_version(Some("not a requirement"), &current) {
        Err(ManifestError::InvalidVersionRequirement { required }) => assert_eq!(required, "not a requirement"),
        _ => panic!("expected an invalid requirement"),
    }
}

#[test]
fn std_requirement_defaults_to_any() {
    assert_eq!(std_requirement(None), "*");
    assert_eq!(std_requirement(Some("^0.5")), "^0.5");
}

#[test]
fn root_paths_become_file_urls() {
    let url = match normalize_path_url("/home/user/project") {
        Ok(u) => u,
        Err(_) => panic!("expected a URL"),
    };
    assert_eq!(url.text, "file:///home/user/project");
    assert_eq!(url.scheme, "file");
    assert!(check_root_scheme(&url).is_ok());

    let remote = match normalize_path_url("https://example.com/pkg") {
        Ok(u) => u,
        Err(_) => panic!("expected a URL"),
    };
    assert_eq!(remote.text, "https://example.com/pkg");
    match check_root_scheme(&remote) {
        Err(ManifestError::UnsupportedScheme { scheme }) => assert_eq!(scheme, "https"),
        _ => panic!("expected an unsupported scheme"),
    }
}

#[test]
fn unparsable_paths_are_refused() {
    match normalize_path_url("[") {
        Err(ManifestError::InvalidFileUri { path }) => assert_eq!(path, "["),
        _ => panic!("expected an invalid URI"),
    }
}

#[test]
fn manifest_must_have_the_requested_version() {
    assert!(check_requested_version(&v(1, 2, 3), &v(1, 2, 3)).is_ok());
    assert!(matches!(check_requested_version(&v(1, 2, 3), &v(1, 2, 4)), Err(DependencyError::VersionNotFound)));
}

#[test]
fn versions_are_read_as_semver_reads_them() {
    let v = parse_version("1.22.3-alpha.1+build.5").unwrap();
    assert_eq!((v.major, v.minor, v.patch), (1, 22, 3));
    assert_eq!(v.pre, "alpha.1");
    assert_eq!(v.build, "build.5");
    assert!(parse_version("1.2").is_none());
    assert!(parse_version("01.2.3").is_none());
}

#[test]
fn versions_are_written_as_semver_writes_them() {
    assert_eq!(v(1, 20, 300).to_string(), "1.20.300");
    assert_eq!(v(0, 0, 0).to_string(), "0.0.0");
    assert_eq!(parse_version("1.2.3-alpha.1+build.5").unwrap().to_string(), "1.2.3-alpha.1+build.5");
    assert_eq!(parse_version("10.0.1+b").unwrap().to_string(), "10.0.1+b");
    assert_eq!(u64::MAX.to_string(), PkgVersion::new(u64::MAX, 0, 0).to_string().split('.').next().unwrap());
}

#[test]
fn version_sets_list_their_versions_in_ascending_order() {
    let pre = parse_version("1.5.0-alpha").unwrap();
    let set = VersionSet::from_versions(vec![v(2, 0, 0), v(1, 0, 0), v(1, 5, 0), pre, v(1, 0, 0)]);
    assert_eq!(set.to_string(), "1.0.0, 1.5.0-alpha, 1.5.0, 2.0.0");
    assert_eq!(VersionSet::empty().to_string(), "");
    assert_eq!(VersionSet::singleton(v(3, 1, 4)).to_string(), "3.1.4");
}

#[test]
fn packages_are_fetched_once() {
    let mut paths = PackagePaths::new();
    let local = PackageKey::Local("/src/app".to_string());
    let git = PackageKey::Git { repository: "https://x/y".to_string(), rev: "abc".to_string(), dir: Some("lib".to_string()) };
    match paths.fetch_step(&local) {
        FetchStep::Local(p) => assert_eq!(p, "/src/app"),
        _ => panic!("expected a local package"),
    }
    match paths.fetch_step(&git) {
        FetchStep::Clone { repository, rev, dir } => {
            assert_eq!((repository.as_str(), rev.as_str(), dir.as_deref()), ("https://x/y", "abc", Some("lib")))
        }
        _ => panic!("expected a clone"),
    }
    paths.record(
        PackageKey::Git { repository: "https://x/y".to_string(), rev: "abc".to_string(), dir: Some("lib".to_string()) },
        "/cache/yabc/lib".to_string(),
    );
    match paths.fetch_step(&git) {
        FetchStep::Known(p) => assert_eq!(p, "/cache/yabc/lib"),
        _ => panic!("expected a remembered folder"),
    }
    let other = PackageKey::Git { repository: "https://x/y".to_string(), rev: "def".to_string(), dir: None };
    assert!(matches!(paths.fetch_step(&other), FetchStep::Clone { .. }));
}
