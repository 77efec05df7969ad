//! The GitHub REST endpoints the application talks to: the exact URLs and
//! the bearer header, built and verified here. Sending the requests and
//! decoding the JSON stays with the host.

use vstd::prelude::*;
use vstd::string::StringExecFns;
use vstd::utf8::encode_utf8;

use crate::models::issue::{Issue, ListIssuesParams};
use crate::strutil::{dec_chars, int_dec_chars, i32_to_string, join_with, join_with_sep, u32_to_string};
use crate::urlenc::{url_encode, url_encode_bytes};

verus! {

/// The authenticated user, as the user endpoint reports it.
#[derive(Debug)]
pub struct GitHubUser {
    pub id: i64,
    pub login: String,
    pub name: Option<String>,
    pub email: Option<String>,
    pub avatar_url: String,
}

/// The accumulated query fragments, with one more appended if it applies.
pub open spec fn opt_part(acc: Seq<Seq<char>>, part: Option<Seq<char>>) -> Seq<Seq<char>> {
    match part {
        Some(p) => acc.push(p),
        None => acc,
    }
}

pub open spec fn opt_str_view(o: Option<String>) -> Option<Seq<char>> {
    match o {
        Some(s) => Some(s@),
        None => None,
    }
}

/// The query fragments a listing request carries, in their fixed order:
/// state, labels (percent-encoded), milestone, assignee, sort, direction,
/// page size, page.
pub open spec fn issues_query_parts(p: ListIssuesParams) -> Seq<Seq<char>> {
    let with_state = opt_part(
        Seq::empty(),
        match p.state {
            Some(st) => Some("state="@ + st.spec_str()),
            None => None,
        },
    );
    let with_labels = opt_part(
        with_state,
        match p.labels {
            Some(l) => Some("labels="@ + url_encode_bytes(encode_utf8(l@))),
            None => None,
        },
    );
    let with_milestone = opt_part(
        with_labels,
        match p.milestone {
            Some(m) => Some("milestone="@ + m@),
            None => None,
        },
    );
    let with_assignee = opt_part(
        with_milestone,
        match p.assignee {
            Some(a) => Some("assignee="@ + a@),
            None => None,
        },
    );
    let with_sort = opt_part(
        with_assignee,
        match p.sort {
            Some(f) => Some("sort="@ + f.spec_str()),
            None => None,
        },
    );
    let with_direction = opt_part(
        with_sort,
        match p.direction {
            Some(d) => Some("direction="@ + d.spec_str()),
            None => None,
        },
    );
    let with_per_page = opt_part(
        with_direction,
        match p.per_page {
            Some(n) => Some("per_page="@ + dec_chars(n as int)),
            None => None,
        },
    );
    opt_part(
        with_per_page,
        match p.page {
            Some(n) => Some("page="@ + dec_chars(n as int)),
            None => None,
        },
    )
}

/// The issues endpoint of a repository, with the query string the
/// parameters call for (none when no parameter is set).
pub open spec fn spec_issues_url(owner: Seq<char>, repo: Seq<char>, p: ListIssuesParams) -> Seq<
    char,
> {
    let base = "https://api.github.com/repos/"@ + owner + "/"@ + repo + "/issues"@;
    let parts = issues_query_parts(p);
    if parts.len() == 0 {
        base
    } else {
        base + "?"@ + join_with(parts, "&"@)
    }
}

fn push_opt_part(parts: &mut Vec<String>, part: Option<String>)
    ensures
        final(parts)@.map_values(|q: String| q@) == opt_part(
            old(parts)@.map_values(|q: String| q@),
            opt_str_view(part),
        ),
{
    match part {
        Some(p) => {
            proof {
                assert(old(parts)@.push(p).map_values(|q: String| q@) =~= old(
                    parts,
                )@.map_values(|q: String| q@).push(p@));
            }
            parts.push(p);
        },
        None => {},
    }
}

/// The issues that are issues proper: records carrying a pull-request link
/// are left out, the rest keep their order.
pub open spec fn non_pull_requests(s: Seq<Issue>) -> Seq<Issue>
    decreases s.len(),
{
    if s.len() == 0 {
        Seq::empty()
    } else if s.first().pull_request is Some {
        non_pull_requests(s.drop_first())
    } else {
        seq![s.first()] + non_pull_requests(s.drop_first())
    }
}

/// Drops the records that describe pull requests from an issue listing,
/// exactly as [`non_pull_requests`] says.
pub fn filter_out_pull_requests(issues: Vec<Issue>) -> (r: Vec<Issue>)
    ensures
        r@ == non_pull_requests(issues@),
{
    let mut rest = issues;
    let ghost all = rest@;
    let mut kept: Vec<Issue> = Vec::new();
    proof {
        assert(kept@ + non_pull_requests(all) =~= non_pull_requests(all));
    }
    while rest.len() > 0
        invariant
            non_pull_requests(all) == kept@ + non_pull_requests(rest@),
        decreases rest.len(),
    {
        let ghost prev = rest@;
        let e = rest.remove(0);
        proof {
            assert(prev.first() == e);
            assert(prev.drop_first() =~= rest@);
        }
        if e.pull_request.is_none() {
            proof {
                assert(kept@.push(e) + non_pull_requests(rest@) =~= kept@ + (seq![e]
                    + non_pull_requests(rest@)));
            }
            kept.push(e);
        }
    }
    proof {
        assert(kept@ + non_pull_requests(Seq::<Issue>::empty()) =~= kept@);
    }
    kept
}

/// Judges what an API endpoint answered: the parsed document when the
/// request succeeded and the body parsed; otherwise the exact error the
/// caller reports. The HTTP status text, the response body and the parse
/// outcome all come from the host.
pub fn accept_api_response<T>(
    http_ok: bool,
    parsed: Result<T, String>,
    status: &str,
    body: &str,
) -> (r: Result<T, String>)
    ensures
        match r {
            Ok(doc) => http_ok && (parsed matches Ok(p) && doc == p),
            Err(m) => {
                if !http_ok {
                    m@ == "GitHub API error ("@ + status@ + "): "@ + body@
                } else {
                    parsed matches Err(e) && m@ == "Failed to parse response: "@ + e@
                }
            },
        },
{
    if !http_ok {
        return Err("GitHub API error (".to_owned().concat(status).concat("): ").concat(body));
    }
    match parsed {
        Ok(doc) => Ok(doc),
        Err(e) => Err("Failed to parse response: ".to_owned().concat(e.as_str())),
    }
}

/// A client of the GitHub REST interface: it remembers the bearer token and
/// knows the endpoints; the host owns the HTTP machinery.
pub struct GitHubClient {
    token: Option<String>,
}

impl GitHubClient {
    /// The stored bearer token.
    pub closed spec fn spec_token(self) -> Option<Seq<char>> {
        match self.token {
            Some(t) => Some(t@),
            None => None,
        }
    }

    /// A client with no token yet.
    pub fn new() -> (r: GitHubClient)
        ensures
            r.spec_token() is None,
    {
        GitHubClient { token: None }
    }

    /// A client that authenticates with the given token.
    pub fn with_token(token: String) -> (r: GitHubClient)
        ensures
            r.spec_token() == Some(token@),
    {
        GitHubClient { token: Some(token) }
    }

    /// Stores (or replaces) the token.
    pub fn set_token(&mut self, token: String)
        ensures
            final(self).spec_token() == Some(token@),
    {
        self.token = Some(token);
    }

    /// The stored token, if any.
    pub fn token(&self) -> (r: Option<&String>)
        ensures
            match r {
                Some(t) => self.spec_token() == Some(t@),
                None => self.spec_token() is None,
            },
    {
        match &self.token {
            Some(t) => Some(t),
            None => None,
        }
    }

    /// The Authorization header for the stored token; every request needs
    /// one, so a client without a token refuses with the exact message.
    pub fn bearer_header(&self) -> (r: Result<String, String>)
        ensures
            match r {
                Ok(h) => self.spec_token() matches Some(t) && h@ == "Bearer "@ + t,
                Err(m) => self.spec_token() is None && m@ == "No token set"@,
            },
    {
        match &self.token {
            Some(t) => Ok("Bearer ".to_owned().concat(t.as_str())),
            None => Err("No token set".to_owned()),
        }
    }

    /// The endpoint for the authenticated user.
    pub fn user_url() -> (r: String)
        ensures
            r@ == "https://api.github.com/user"@,
    {
        "https://api.github.com/user".to_owned()
    }

    /// The endpoint for listing a repository's issues, exactly as
    /// [`spec_issues_url`] says.
    pub fn issues_url(owner: &str, repo: &str, params: &ListIssuesParams) -> (r: String)
        ensures
            r@ == spec_issues_url(owner@, repo@, *params),
    {
        let mut parts: Vec<String> = Vec::new();
        proof {
            assert(parts@.map_values(|q: String| q@) =~= Seq::<Seq<char>>::empty());
        }
        let state_part: Option<String> = match params.state {
            Some(st) => Some("state=".to_owned().concat(st.as_str())),
            None => None,
        };
        push_opt_part(&mut parts, state_part);
        let labels_part: Option<String> = match &params.labels {
            Some(l) => Some("labels=".to_owned().concat(url_encode(l.as_str()).as_str())),
            None => None,
        };
        push_opt_part(&mut parts, labels_part);
        let milestone_part: Option<String> = match &params.milestone {
            Some(m) => Some("milestone=".to_owned().concat(m.as_str())),
            None => None,
        };
        push_opt_part(&mut parts, milestone_part);
        let assignee_part: Option<String> = match &params.assignee {
            Some(a) => Some("assignee=".to_owned().concat(a.as_str())),
            None => None,
        };
        push_opt_part(&mut parts, assignee_part);
        let sort_part: Option<String> = match params.sort {
            Some(f) => Some("sort=".to_owned().concat(f.as_str())),
            None => None,
        };
        push_opt_part(&mut parts, sort_part);
        let direction_part: Option<String> = match params.direction {
            Some(d) => Some("direction=".to_owned().concat(d.as_str())),
            None => None,
        };
        push_opt_part(&mut parts, direction_part);
        let per_page_part: Option<String> = match params.per_page {
            Some(n) => Some("per_page=".to_owned().concat(u32_to_string(n).as_str())),
            None => None,
        };
        push_opt_part(&mut parts, per_page_part);
        let page_part: Option<String> = match params.page {
            Some(n) => Some("page=".to_owned().concat(u32_to_string(n).as_str())),
            None => None,
        };
        push_opt_part(&mut parts, page_part);
        let base = "https://api.github.com/repos/".to_owned().concat(owner).concat("/").concat(
            repo,
        ).concat("/issues");
        if parts.len() == 0 {
            base
        } else {
            base.concat("?").concat(join_with_sep(&parts, "&").as_str())
        }
    }

    /// The endpoint for one issue.
    pub fn issue_url(owner: &str, repo: &str, issue_number: i32) -> (r: String)
        ensures
            r@ == "https://api.github.com/repos/"@ + owner@ + "/"@ + repo@ + "/issues/"@
                + int_dec_chars(issue_number as int),
    {
        "https://api.github.com/repos/".to_owned().concat(owner).concat("/").concat(repo).concat(
            "/issues/",
        ).concat(i32_to_string(issue_number).as_str())
    }

    /// The endpoint for a repository's labels.
    pub fn labels_url(owner: &str, repo: &str) -> (r: String)
        ensures
            r@ == "https://api.github.com/repos/"@ + owner@ + "/"@ + repo@ + "/labels"@,
    {
        "https://api.github.com/repos/".to_owned().concat(owner).concat("/").concat(repo).concat(
            "/labels",
        )
    }

    /// The endpoint for a repository's milestones.
    pub fn milestones_url(owner: &str, repo: &str) -> (r: String)
        ensures
            r@ == "https://api.github.com/repos/"@ + owner@ + "/"@ + repo@ + "/milestones"@,
    {
        "https://api.github.com/repos/".to_owned().concat(owner).concat("/").concat(repo).concat(
            "/milestones",
        )
    }

    /// The endpoint for opening a pull request.
    pub fn pulls_url(owner: &str, repo: &str) -> (r: String)
        ensures
            r@ == "https://api.github.com/repos/"@ + owner@ + "/"@ + repo@ + "/pulls"@,
    {
        "https://api.github.com/repos/".to_owned().concat(owner).concat("/").concat(repo).concat(
            "/pulls",
        )
    }
}

impl Default for GitHubClient {
    /// A client with no token yet, as [`GitHubClient::new`] builds it.
    fn default() -> (r: GitHubClient)
        ensures
            r.spec_token() is None,
    {
        GitHubClient::new()
    }
}

} // verus!
