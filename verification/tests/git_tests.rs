use issue_marionette::git::GitService;

const PORCELAIN: &str = "worktree /repos/myrepo\nHEAD 1111111111111111111111111111111111111111\nbranch refs/heads/main\n\nworktree /repos/myrepo-worktrees/issue-3-fix\nHEAD 2222222222222222222222222222222222222222\nbranch refs/heads/fix\n\nworktree /repos/bare-one\nbare\n";

#[test]
fn porcelain_records_are_read_in_order() {
    let infos = GitService::parse_worktree_list_detailed(PORCELAIN);
    assert_eq!(infos.len(), 3);

    assert_eq!(infos[0].path, "/repos/myrepo");
    assert_eq!(infos[0].branch, Some("main".to_string()));
    assert_eq!(infos[0].head, "1111111111111111111111111111111111111111");
    assert!(!infos[0].is_bare);

    assert_eq!(infos[1].path, "/repos/myrepo-worktrees/issue-3-fix");
    assert_eq!(infos[1].branch, Some("fix".to_string()));
    assert!(!infos[1].is_bare);

    assert_eq!(infos[2].path, "/repos/bare-one");
    assert_eq!(infos[2].branch, None);
    assert_eq!(infos[2].head, "");
    assert!(infos[2].is_bare);
}

#[test]
fn porcelain_without_records_is_empty() {
    assert!(GitService::parse_worktree_list_detailed("").is_empty());
    assert!(GitService::parse_worktree_list_detailed("stray line\n").is_empty());
}

#[test]
fn a_record_without_head_defaults_to_empty() {
    let infos = GitService::parse_worktree_list_detailed("worktree /w/x\n");
    assert_eq!(infos.len(), 1);
    assert_eq!(infos[0].path, "/w/x");
    assert_eq!(infos[0].head, "");
    assert_eq!(infos[0].branch, None);
}

#[test]
fn worktree_paths_are_filtered_out_of_the_listing() {
    let paths = GitService::parse_worktree_list(PORCELAIN);
    assert_eq!(
        paths,
        vec![
            "/repos/myrepo".to_string(),
            "/repos/myrepo-worktrees/issue-3-fix".to_string(),
            "/repos/bare-one".to_string(),
        ]
    );
}

#[test]
fn default_branch_prefers_the_remote_head() {
    assert_eq!(
        GitService::choose_default_branch(true, "origin/main\n", false, false),
        Ok("main".to_string())
    );
    assert_eq!(
        GitService::choose_default_branch(false, "", true, true),
        Ok("main".to_string())
    );
    assert_eq!(
        GitService::choose_default_branch(false, "", false, true),
        Ok("master".to_string())
    );
    assert_eq!(
        GitService::choose_default_branch(false, "", false, false),
        Err("Cannot determine default branch: neither 'main' nor 'master' exists".to_string())
    );
}

#[test]
fn diff_base_is_the_merge_base_when_known() {
    assert_eq!(GitService::pick_diff_base(true, "abc123\n", "main"), "abc123");
    assert_eq!(GitService::pick_diff_base(false, "", "main"), "main");
}
