use issue_marionette::engine::SessionKind;
use issue_marionette::github::GitHubUser;
use issue_marionette::launch::build_command;
use issue_marionette::models::agent::AgentMode;
use issue_marionette::models::repository::Repository;
use issue_marionette::process::{ProcessManager, ProcessStatus};
use issue_marionette::stores::{RepositoryStore, StoredAuth, TokenStore};

fn repo(id: &str, name: &str) -> Repository {
    Repository {
        id: id.to_string(),
        owner: "me".to_string(),
        name: name.to_string(),
        full_name: format!("me/{}", name),
        local_path: format!("/repos/{}", name),
        default_branch: "main".to_string(),
        is_private: false,
        created_at: "t0".to_string(),
        updated_at: "t0".to_string(),
    }
}

#[test]
fn saving_replaces_the_record_with_the_same_id() {
    let stored = vec![repo("1", "one"), repo("2", "two")];
    let updated = RepositoryStore::save_into(stored, repo("1", "one-renamed"));
    assert_eq!(updated.len(), 2);
    assert_eq!(updated[0].id, "2");
    assert_eq!(updated[1].id, "1");
    assert_eq!(updated[1].name, "one-renamed");
}

#[test]
fn saving_appends_a_new_record() {
    let stored = vec![repo("1", "one")];
    let updated = RepositoryStore::save_into(stored, repo("2", "two"));
    assert_eq!(updated.len(), 2);
    assert_eq!(updated[1].id, "2");
}

#[test]
fn deleting_removes_exactly_the_id() {
    let stored = vec![repo("1", "one"), repo("2", "two"), repo("3", "three")];
    let remaining = RepositoryStore::delete_from(stored, "2");
    assert_eq!(remaining.len(), 2);
    assert_eq!(remaining[0].id, "1");
    assert_eq!(remaining[1].id, "3");

    let unchanged = RepositoryStore::delete_from(vec![repo("1", "one")], "9");
    assert_eq!(unchanged.len(), 1);
}

fn user(login: &str) -> GitHubUser {
    GitHubUser {
        id: 7,
        login: login.to_string(),
        name: None,
        email: None,
        avatar_url: "https://example.invalid/a.png".to_string(),
    }
}

#[test]
fn token_store_round_trip() {
    let mut store = TokenStore::new();
    assert!(store.load_token().is_none());
    assert!(store.load_user().is_none());

    store.save_token(StoredAuth {
        access_token: "tok".to_string(),
        token_type: "bearer".to_string(),
        scope: "repo user".to_string(),
        stored_at: "t0".to_string(),
    });
    assert_eq!(store.load_token().unwrap().access_token, "tok");
    assert!(store.load_user().is_none());

    store.save_user(user("octo"));
    assert_eq!(store.load_user().unwrap().login, "octo");
    assert_eq!(store.load_token().unwrap().access_token, "tok");

    store.clear_token();
    assert!(store.load_token().is_none());
    assert!(store.load_user().is_none());
}

#[test]
fn process_table_tracks_status_changes() {
    let mut procs = ProcessManager::new();
    assert_eq!(procs.get_status("a"), None);

    procs.register("a".to_string(), 100);
    procs.register("b".to_string(), 200);
    assert_eq!(procs.get_status("a"), Some(ProcessStatus::Running));

    procs.set_status("a", ProcessStatus::Completed);
    assert_eq!(procs.get_status("a"), Some(ProcessStatus::Completed));
    assert_eq!(procs.get_status("b"), Some(ProcessStatus::Running));

    procs.register("a".to_string(), 300);
    assert_eq!(procs.get_status("a"), Some(ProcessStatus::Running));

    procs.remove("a");
    assert_eq!(procs.get_status("a"), None);
    assert_eq!(procs.get_status("b"), Some(ProcessStatus::Running));
}

#[test]
fn setting_status_of_an_unknown_process_changes_nothing() {
    let mut procs = ProcessManager::new();
    procs.register("a".to_string(), 100);
    procs.set_status("ghost", ProcessStatus::Error);
    assert_eq!(procs.get_status("a"), Some(ProcessStatus::Running));
    assert_eq!(procs.get_status("ghost"), None);
}

#[test]
fn commands_are_built_per_session_kind() {
    let plan = build_command(
        SessionKind::Agent(AgentMode::Plan),
        "/wt".to_string(),
        None,
        "agent".to_string(),
    );
    assert_eq!(plan.program, "agent");
    assert_eq!(plan.args, vec!["--plan".to_string()]);
    assert_eq!(plan.working_dir, "/wt");

    // the agent executable is exactly the one the host names
    let act = build_command(
        SessionKind::Agent(AgentMode::Act),
        "/wt".to_string(),
        None,
        "/opt/bin/coder".to_string(),
    );
    assert_eq!(act.program, "/opt/bin/coder");
    assert!(act.args.is_empty());

    let shell = build_command(
        SessionKind::Shell,
        "/home/me".to_string(),
        Some("/bin/zsh".to_string()),
        "agent".to_string(),
    );
    assert_eq!(shell.program, "/bin/zsh");
    assert!(shell.args.is_empty());

    let fallback = build_command(
        SessionKind::Shell,
        "/home/me".to_string(),
        None,
        "agent".to_string(),
    );
    assert_eq!(fallback.program, "/bin/bash");
}

#[test]
fn authentication_is_demanded_exactly() {
    let mut store = TokenStore::new();
    assert_eq!(store.require_token().unwrap_err(), "Not authenticated");
    store.save_token(StoredAuth {
        access_token: "tok".to_string(),
        token_type: "bearer".to_string(),
        scope: "repo".to_string(),
        stored_at: "t0".to_string(),
    });
    assert_eq!(store.require_token().unwrap().access_token, "tok");
}
