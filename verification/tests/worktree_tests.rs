use issue_marionette::git::WorktreeInfo;
use issue_marionette::models::worktree::WorktreeStatus;
use issue_marionette::worktree::{
    extract_issue_number, find_main_repo_from_worktree, generate_worktree_id,
    make_worktree_record, path_file_name, path_join, path_parent, plan_worktree_paths,
    sanitize_branch_name, strip_suffix_str, worktree_dir_name, worktrees_from_list,
};

#[test]
fn textual_path_pieces() {
    assert_eq!(path_file_name("/a/b/c"), "c");
    assert_eq!(path_file_name("plain"), "plain");
    assert_eq!(path_parent("/a/b/c"), Some("/a/b".to_string()));
    assert_eq!(path_parent("plain"), None);
    assert_eq!(path_join("/a/b", "c"), "/a/b/c");
    assert_eq!(strip_suffix_str("repo-worktrees", "-worktrees"), Some("repo".to_string()));
    assert_eq!(strip_suffix_str("repo", "-worktrees"), None);
}

#[test]
fn branch_names_are_sanitised_and_lowered() {
    assert_eq!(sanitize_branch_name("Feature/ABC"), "feature-abc");
    assert_eq!(sanitize_branch_name("fix_bug-3"), "fix_bug-3");
    assert_eq!(sanitize_branch_name("a b:c"), "a-b-c");
    assert_eq!(sanitize_branch_name(""), "");
}

#[test]
fn issue_numbers_come_back_out_of_directory_names() {
    assert_eq!(extract_issue_number("/w/issue-12-fix-thing"), Some(12));
    assert_eq!(extract_issue_number("issue-7"), Some(7));
    assert_eq!(extract_issue_number("/w/issue-+3-x"), Some(3));
    assert_eq!(extract_issue_number("/w/issue--5-x"), None);
    assert_eq!(extract_issue_number("/w/issue-abc-x"), None);
    assert_eq!(extract_issue_number("/w/other-12"), None);
    assert_eq!(extract_issue_number("/w/issue-"), None);
}

#[test]
fn worktree_ids_are_digest_prefixes() {
    // SHA-256 of the empty string, first sixteen bytes in hexadecimal
    assert_eq!(generate_worktree_id(""), "e3b0c44298fc1c149afbf4c8996fb924");
    // SHA-256 of "abc"
    assert_eq!(generate_worktree_id("abc"), "ba7816bf8f01cfea414140de5dae2223");
    assert_eq!(generate_worktree_id("/some/path").len(), 32);
}

#[test]
fn worktree_directory_names() {
    assert_eq!(worktree_dir_name(12, "Feature/ABC"), "issue-12-feature-abc");
    assert_eq!(worktree_dir_name(-3, "x"), "issue--3-x");
}

#[test]
fn planning_worktree_paths() {
    let plan = plan_worktree_paths("/repos/myrepo", 12, "Fix/It").unwrap();
    assert_eq!(plan.worktrees_dir, "/repos/myrepo-worktrees");
    assert_eq!(plan.dir_name, "issue-12-fix-it");
    assert_eq!(plan.worktree_path, "/repos/myrepo-worktrees/issue-12-fix-it");

    let err = plan_worktree_paths("rootless", 1, "x").unwrap_err();
    assert_eq!(err, "Cannot determine parent directory");
}

#[test]
fn worktree_records_carry_their_origin() {
    let w = make_worktree_record(
        "/repos/myrepo",
        12,
        "fix-it".to_string(),
        "/repos/myrepo-worktrees/issue-12-fix-it",
        "2024-05-01T10:00:00+00:00",
    );
    assert_eq!(w.id, generate_worktree_id("/repos/myrepo-worktrees/issue-12-fix-it"));
    assert_eq!(w.repository_id, "/repos/myrepo");
    assert_eq!(w.issue_number, Some(12));
    assert_eq!(w.branch_name, "fix-it");
    assert!(matches!(w.status, WorktreeStatus::Ready));
    assert_eq!(w.created_at, w.updated_at);
}

#[test]
fn finding_the_main_repository() {
    assert_eq!(
        find_main_repo_from_worktree("/repos/myrepo-worktrees/issue-1-x"),
        Ok("/repos/myrepo".to_string())
    );
    assert_eq!(
        find_main_repo_from_worktree("rootless"),
        Err("Cannot determine parent directory of worktree".to_string())
    );
    assert_eq!(
        find_main_repo_from_worktree("/repos/elsewhere/issue-1-x"),
        Err("Worktrees directory does not follow expected naming convention: elsewhere"
            .to_string())
    );
    assert_eq!(
        find_main_repo_from_worktree("myrepo-worktrees/issue-1-x"),
        Err("Cannot determine parent directory of worktrees directory".to_string())
    );
}

#[test]
fn listing_keeps_real_worktrees_under_the_worktrees_directory() {
    let infos = vec![
        WorktreeInfo {
            path: "/repos/myrepo".to_string(),
            branch: Some("main".to_string()),
            head: "aaa".to_string(),
            is_bare: false,
        },
        WorktreeInfo {
            path: "/repos/myrepo-worktrees/issue-3-fix".to_string(),
            branch: Some("fix".to_string()),
            head: "bbb".to_string(),
            is_bare: false,
        },
        WorktreeInfo {
            path: "/repos/myrepo-worktrees/issue-4-more".to_string(),
            branch: None,
            head: "ccc".to_string(),
            is_bare: true,
        },
    ];
    let listed = worktrees_from_list(&infos, "/repos/myrepo", "now");
    assert_eq!(listed.len(), 1);
    assert_eq!(listed[0].path, "/repos/myrepo-worktrees/issue-3-fix");
    assert_eq!(listed[0].issue_number, Some(3));
    assert_eq!(listed[0].branch_name, "fix");
    assert_eq!(listed[0].repository_id, "/repos/myrepo");
    assert_eq!(listed[0].created_at, "now");
}
