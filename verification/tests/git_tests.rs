use lume::arc::git::{
    clone_plan, clone_step, cloned_package_path, join_path, path_last_component, CloneStep, revision_from_listing, revision_query, trim_text, CloneError, GitError,
    RevisionQuery,
};

#[test]
fn given_revision_is_used_as_is() {
    match revision_query("https://x/y", Some("abc123"), Some("v1"), None) {
        Ok(RevisionQuery::Known(rev)) => assert_eq!(rev, "abc123"),
        _ => panic!("expected a known revision"),
    }
}

#[test]
fn tags_and_branches_narrow_the_listing() {
    match revision_query("https://x/y", None, Some("v1.0"), None) {
        Ok(RevisionQuery::ListRemote { args }) => {
            assert_eq!(args, vec!["ls-remote", "--quiet", "https://x/y", "--tags", "v1.0"])
        }
        _ => panic!("expected a listing"),
    }
    match revision_query("https://x/y", None, None, Some("main")) {
        Ok(RevisionQuery::ListRemote { args }) => {
            assert_eq!(args, vec!["ls-remote", "--quiet", "https://x/y", "--branches", "main"])
        }
        _ => panic!("expected a listing"),
    }
    match revision_query("https://x/y", None, None, None) {
        Ok(RevisionQuery::ListRemote { args }) => assert_eq!(args, vec!["ls-remote", "--quiet", "https://x/y"]),
        _ => panic!("expected a listing"),
    }
}

#[test]
fn tag_and_branch_together_are_refused() {
    assert!(matches!(
        revision_query("https://x/y", None, Some("v1"), Some("main")),
        Err(GitError::ConflictingSelectors)
    ));
}

#[test]
fn revision_is_read_before_the_first_tab() {
    let listing = "  9f8e7d6c5b4a\trefs/heads/main\nffff\trefs/tags/v1\n";
    assert_eq!(revision_from_listing(listing).unwrap(), "9f8e7d6c5b4a");
    assert_eq!(revision_from_listing("").unwrap_err(), GitError::EmptyListing);
    assert_eq!(revision_from_listing("no tab here").unwrap_err(), GitError::EmptyListing);
    assert_eq!(revision_from_listing("\tref").unwrap(), "");
}

#[test]
fn trimming_removes_unicode_white_space() {
    assert_eq!(trim_text("  a b \n"), "a b");
    assert_eq!(trim_text("\u{3000}x\u{a0}"), "x");
    assert_eq!(trim_text(" \t "), "");
    assert_eq!(trim_text("x"), "x");
}

#[test]
fn last_component_of_paths() {
    assert_eq!(path_last_component("/user/repo.git").as_deref(), Some("repo.git"));
    assert_eq!(path_last_component("/user/repo/").as_deref(), Some("repo"));
    assert_eq!(path_last_component("a/./b/.").as_deref(), Some("b"));
    assert_eq!(path_last_component("a//b").as_deref(), Some("b"));
    assert_eq!(path_last_component("/").as_deref(), Some("/"));
    assert_eq!(path_last_component("/./").as_deref(), Some("/"));
    assert_eq!(path_last_component(".").as_deref(), Some("."));
    assert_eq!(path_last_component("./").as_deref(), Some("."));
    assert_eq!(path_last_component("a/..").as_deref(), Some(".."));
    assert_eq!(path_last_component(""), None);
}

#[test]
fn joining_paths() {
    assert_eq!(join_path("/cache", "repo"), "/cache/repo");
    assert_eq!(join_path("/cache/", "repo"), "/cache/repo");
    assert_eq!(join_path("", "repo"), "repo");
    assert_eq!(join_path("/cache", "/abs"), "/abs");
    assert_eq!(join_path("/cache", ""), "/cache/");
}

#[test]
fn clone_goes_into_a_folder_named_after_repository_and_revision() {
    let plan = clone_plan("https://github.com/user/repo.git", "abc123", None, "/cache").ok().unwrap();
    assert_eq!(plan.local_directory, "/cache/repo.gitabc123");
    assert_eq!(plan.requested_path, "/cache/repo.gitabc123");
    assert_eq!(
        plan.args,
        vec![
            "clone",
            "--depth",
            "1",
            "--revision",
            "abc123",
            "https://github.com/user/repo.git",
            "/cache/repo.gitabc123"
        ]
    );
}

#[test]
fn clone_of_a_sub_directory() {
    let plan = clone_plan("https://example.com/a/lib/", "r1", Some("pkg/std"), "/tmp/c/").ok().unwrap();
    assert_eq!(plan.local_directory, "/tmp/c/libr1");
    assert_eq!(plan.requested_path, "/tmp/c/libr1/pkg/std");
    assert_eq!(plan.args[5], "https://example.com/a/lib/");
}

#[test]
fn clone_of_an_invalid_url_is_refused() {
    match clone_plan("not a url", "r", None, "/c") {
        Err(CloneError::InvalidRepositoryUrl { repository }) => assert_eq!(repository, "not a url"),
        _ => panic!("expected an invalid URL"),
    }
}

#[test]
fn clone_of_a_url_without_path_name_is_refused() {
    match clone_plan("mailto:", "r", None, "/c") {
        Err(CloneError::NoRepositoryName { path }) => assert_eq!(path, ""),
        _ => panic!("expected no repository name"),
    }
}

#[test]
fn clone_url_is_serialised_by_url_crate() {
    let plan = clone_plan("HTTPS://Example.COM/x/y", "r", None, "/c").ok().unwrap();
    assert_eq!(plan.args[5], "https://example.com/x/y");
    assert_eq!(plan.local_directory, "/c/yr");
}

#[test]
fn clone_folder_lies_in_the_cache() {
    for repository in ["https://github.com/user/repo.git", "https://example.com/a/./", "file:///x/y/.."] {
        let plan = clone_plan(repository, "r", None, "/home/u/.cache").ok().unwrap();
        assert!(plan.local_directory.starts_with("/home/u/.cache/"));
    }
}

#[test]
fn clone_of_a_repository_at_the_root_leaves_the_cache() {
    let plan = clone_plan("https://example.com/", "r1", None, "/cache").ok().unwrap();
    assert_eq!(plan.local_directory, "/r1");
}

#[test]
fn earlier_clones_are_reused_and_stray_folders_replaced() {
    assert_eq!(clone_step(false, false), CloneStep::Clone);
    assert_eq!(clone_step(true, true), CloneStep::Reuse);
    assert_eq!(clone_step(true, false), CloneStep::ReplaceThenClone);
}

#[test]
fn package_path_of_a_clone() {
    let plan = clone_plan("https://example.com/a/lib", "r1", Some("pkg"), "/c").ok().unwrap();
    assert_eq!(plan.git_directory, "/c/libr1/.git");
    assert_eq!(cloned_package_path(&plan, Some("pkg"), true).ok().unwrap(), "/c/libr1/pkg");
    match cloned_package_path(&plan, Some("pkg"), false) {
        Err(CloneError::NoSubDirectory { name }) => assert_eq!(name, "pkg"),
        _ => panic!("expected a missing sub-directory"),
    }
    assert_eq!(cloned_package_path(&plan, None, false).ok().unwrap(), "/c/libr1");
}
