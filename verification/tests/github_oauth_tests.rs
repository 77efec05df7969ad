use issue_marionette::github::GitHubClient;
use issue_marionette::models::issue::{
    IssueSortField, ListIssuesParams, ListIssuesStateFilter, SortDirection,
};
use issue_marionette::github::filter_out_pull_requests;
use issue_marionette::models::issue::{Issue, IssuePullRequestLink, IssueState, IssueUser};
use issue_marionette::oauth::{accept_token_response, OAuthConfig, PendingStates, TokenResponse};

#[test]
fn state_filter_keywords() {
    assert_eq!(ListIssuesStateFilter::Open.as_str(), "open");
    assert_eq!(ListIssuesStateFilter::Closed.as_str(), "closed");
    assert_eq!(ListIssuesStateFilter::All.as_str(), "all");
}

#[test]
fn sort_keywords() {
    assert_eq!(IssueSortField::Created.as_str(), "created");
    assert_eq!(IssueSortField::Updated.as_str(), "updated");
    assert_eq!(IssueSortField::Comments.as_str(), "comments");
    assert_eq!(SortDirection::Asc.as_str(), "asc");
    assert_eq!(SortDirection::Desc.as_str(), "desc");
}

#[test]
fn plain_endpoints() {
    assert_eq!(GitHubClient::user_url(), "https://api.github.com/user");
    assert_eq!(
        GitHubClient::labels_url("me", "repo"),
        "https://api.github.com/repos/me/repo/labels"
    );
    assert_eq!(
        GitHubClient::milestones_url("me", "repo"),
        "https://api.github.com/repos/me/repo/milestones"
    );
    assert_eq!(
        GitHubClient::pulls_url("me", "repo"),
        "https://api.github.com/repos/me/repo/pulls"
    );
    assert_eq!(
        GitHubClient::issue_url("me", "repo", 42),
        "https://api.github.com/repos/me/repo/issues/42"
    );
}

#[test]
fn issues_url_without_parameters_has_no_query() {
    let params = ListIssuesParams::default();
    assert_eq!(
        GitHubClient::issues_url("me", "repo", &params),
        "https://api.github.com/repos/me/repo/issues"
    );
}

#[test]
fn issues_url_joins_parameters_in_order() {
    let params = ListIssuesParams {
        state: Some(ListIssuesStateFilter::Open),
        labels: Some("bug,help wanted".to_string()),
        milestone: None,
        assignee: Some("me".to_string()),
        sort: Some(IssueSortField::Updated),
        direction: Some(SortDirection::Desc),
        per_page: Some(50),
        page: Some(2),
    };
    assert_eq!(
        GitHubClient::issues_url("owner", "repo", &params),
        "https://api.github.com/repos/owner/repo/issues?state=open&labels=bug%2Chelp%20wanted&assignee=me&sort=updated&direction=desc&per_page=50&page=2"
    );
}

#[test]
fn bearer_headers_need_a_token() {
    let mut client = GitHubClient::new();
    assert_eq!(client.bearer_header(), Err("No token set".to_string()));
    assert!(client.token().is_none());
    client.set_token("tok123".to_string());
    assert_eq!(client.bearer_header(), Ok("Bearer tok123".to_string()));

    let other = GitHubClient::with_token("tok".to_string());
    assert_eq!(other.token(), Some(&"tok".to_string()));
}

#[test]
fn oauth_config_carries_the_standard_scopes() {
    let c = OAuthConfig::new("id".to_string(), "secret".to_string(), "uri".to_string());
    assert_eq!(c.scopes, vec!["repo".to_string(), "user".to_string()]);
    assert_eq!(c.client_id, "id");
    assert_eq!(c.redirect_uri, "uri");
}

#[test]
fn oauth_config_from_compile_time_values() {
    let ok = OAuthConfig::from_env(Some("id".to_string()), Some("sec".to_string())).unwrap();
    assert_eq!(ok.redirect_uri, "issue-marionette://oauth-callback");

    assert_eq!(
        OAuthConfig::from_env(None, Some("sec".to_string())).unwrap_err(),
        "GITHUB_CLIENT_ID not configured at compile time"
    );
    assert_eq!(
        OAuthConfig::from_env(Some("id".to_string()), None).unwrap_err(),
        "GITHUB_CLIENT_SECRET not configured at compile time"
    );
}

#[test]
fn auth_urls_percent_encode_the_redirect() {
    let c = OAuthConfig::new(
        "CLIENT".to_string(),
        "secret".to_string(),
        "issue-marionette://oauth-callback".to_string(),
    );
    assert_eq!(
        c.generate_auth_url("STATE123"),
        "https://github.com/login/oauth/authorize?client_id=CLIENT&redirect_uri=issue-marionette%3A%2F%2Foauth-callback&scope=repo user&state=STATE123"
    );
}

#[test]
fn state_tokens_are_long_and_distinct() {
    let a = OAuthConfig::generate_state();
    let b = OAuthConfig::generate_state();
    assert_eq!(a.len(), 36);
    assert_ne!(a, b);
}

fn token(access: &str) -> TokenResponse {
    TokenResponse {
        access_token: access.to_string(),
        token_type: "bearer".to_string(),
        scope: "repo".to_string(),
    }
}

#[test]
fn token_responses_are_judged() {
    let ok = accept_token_response(true, Ok(token("tok")), "200 OK", "").unwrap();
    assert_eq!(ok.access_token, "tok");

    assert_eq!(
        accept_token_response(true, Ok(token("")), "200 OK", "").unwrap_err(),
        "GitHub returned an error (invalid code or expired)"
    );
    assert_eq!(
        accept_token_response(true, Err("bad json".to_string()), "200 OK", "").unwrap_err(),
        "Failed to parse response: bad json"
    );
    assert_eq!(
        accept_token_response(false, Err("unused".to_string()), "401 Unauthorized", "denied")
            .unwrap_err(),
        "GitHub OAuth error (401 Unauthorized): denied"
    );
}

#[test]
fn pending_states_expire_after_five_minutes() {
    let mut states = PendingStates::new();
    states.insert("fresh".to_string(), 1_000);
    states.insert("stale".to_string(), 600);

    assert_eq!(states.take("missing", 1_010), Err("Invalid or expired state".to_string()));
    assert_eq!(states.take("stale", 1_010), Err("State has expired".to_string()));
    assert_eq!(states.take("fresh", 1_010), Ok(()));
    // a state token is spent by taking it
    assert_eq!(states.take("fresh", 1_011), Err("Invalid or expired state".to_string()));
}

#[test]
fn pruning_forgets_only_old_states() {
    let mut states = PendingStates::new();
    states.insert("old".to_string(), 0);
    states.insert("new".to_string(), 900);
    states.prune(1_000);
    assert_eq!(states.take("old", 1_000), Err("Invalid or expired state".to_string()));
    assert_eq!(states.take("new", 1_000), Ok(()));
}

#[test]
fn inserting_a_state_again_replaces_it() {
    let mut states = PendingStates::new();
    states.insert("s".to_string(), 0);
    states.insert("s".to_string(), 2_000);
    assert_eq!(states.take("s", 2_100), Ok(()));
}

fn bare_issue(number: i32, with_pr: bool) -> Issue {
    Issue {
        id: number as i64,
        number,
        title: format!("issue {number}"),
        body: None,
        state: IssueState::Open,
        labels: Vec::new(),
        milestone: None,
        assignees: Vec::new(),
        user: IssueUser {
            id: 1,
            login: "me".to_string(),
            avatar_url: String::new(),
        },
        html_url: String::new(),
        created_at: "t0".to_string(),
        updated_at: "t0".to_string(),
        closed_at: None,
        pull_request: if with_pr {
            Some(IssuePullRequestLink {
                url: String::new(),
                html_url: String::new(),
            })
        } else {
            None
        },
    }
}

#[test]
fn pull_requests_are_filtered_out_of_issue_listings() {
    let issues = vec![bare_issue(1, false), bare_issue(2, true), bare_issue(3, false)];
    let plain = filter_out_pull_requests(issues);
    assert_eq!(plain.len(), 2);
    assert_eq!(plain[0].number, 1);
    assert_eq!(plain[1].number, 3);
}

#[test]
fn api_responses_are_judged() {
    let ok: Result<u32, String> =
        issue_marionette::github::accept_api_response(true, Ok(7u32), "200 OK", "");
    assert_eq!(ok, Ok(7));

    let parse_failed: Result<u32, String> = issue_marionette::github::accept_api_response(
        true,
        Err("bad json".to_string()),
        "200 OK",
        "{",
    );
    assert_eq!(parse_failed, Err("Failed to parse response: bad json".to_string()));

    let denied: Result<u32, String> = issue_marionette::github::accept_api_response(
        false,
        Ok(7u32),
        "403 Forbidden",
        "rate limited",
    );
    assert_eq!(denied, Err("GitHub API error (403 Forbidden): rate limited".to_string()));
}
