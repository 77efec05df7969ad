//! Issue-tracker data: issues, labels, milestones and pull requests, plus the
//! query parameters accepted when listing issues.

use vstd::prelude::*;

verus! {

/// Whether an issue is open or closed.
#[derive(Clone, Copy, Debug, PartialEq, Eq, Structural)]
pub enum IssueState {
    Open,
    Closed,
}

/// The state filter accepted when listing issues.
#[derive(Clone, Copy, Debug, PartialEq, Eq, Structural)]
pub enum ListIssuesStateFilter {
    Open,
    Closed,
    All,
}

impl ListIssuesStateFilter {
    /// The keyword this filter contributes to a query string.
    pub open spec fn spec_str(self) -> Seq<char> {
        match self {
            ListIssuesStateFilter::Open => "open"@,
            ListIssuesStateFilter::Closed => "closed"@,
            ListIssuesStateFilter::All => "all"@,
        }
    }

    pub fn as_str(&self) -> (r: &'static str)
        ensures
            r@ == self.spec_str(),
    {
        match self {
            ListIssuesStateFilter::Open => "open",
            ListIssuesStateFilter::Closed => "closed",
            ListIssuesStateFilter::All => "all",
        }
    }
}

/// The field issues may be sorted by.
#[derive(Clone, Copy, Debug, PartialEq, Eq, Structural)]
pub enum IssueSortField {
    Created,
    Updated,
    Comments,
}

impl IssueSortField {
    /// The keyword this sort field contributes to a query string.
    pub open spec fn spec_str(self) -> Seq<char> {
        match self {
            IssueSortField::Created => "created"@,
            IssueSortField::Updated => "updated"@,
            IssueSortField::Comments => "comments"@,
        }
    }

    pub fn as_str(&self) -> (r: &'static str)
        ensures
            r@ == self.spec_str(),
    {
        match self {
            IssueSortField::Created => "created",
            IssueSortField::Updated => "updated",
            IssueSortField::Comments => "comments",
        }
    }
}

/// Ascending or descending sort order.
#[derive(Clone, Copy, Debug, PartialEq, Eq, Structural)]
pub enum SortDirection {
    Asc,
    Desc,
}

impl SortDirection {
    /// The keyword this direction contributes to a query string.
    pub open spec fn spec_str(self) -> Seq<char> {
        match self {
            SortDirection::Asc => "asc"@,
            SortDirection::Desc => "desc"@,
        }
    }

    pub fn as_str(&self) -> (r: &'static str)
        ensures
            r@ == self.spec_str(),
    {
        match self {
            SortDirection::Asc => "asc",
            SortDirection::Desc => "desc",
        }
    }
}

/// A label as it appears attached to an issue.
#[derive(Debug)]
pub struct IssueLabel {
    pub id: i64,
    pub name: String,
    pub color: String,
}

/// A milestone as it appears attached to an issue.
#[derive(Debug)]
pub struct IssueMilestone {
    pub id: i64,
    pub title: String,
    pub due_on: Option<String>,
}

/// A user assigned to an issue.
#[derive(Debug)]
pub struct IssueAssignee {
    pub id: i64,
    pub login: String,
    pub avatar_url: String,
}

/// The user who opened an issue.
#[derive(Debug)]
pub struct IssueUser {
    pub id: i64,
    pub login: String,
    pub avatar_url: String,
}

/// Links back to the pull request an issue belongs to, when the issue record
/// actually describes a pull request.
#[derive(Debug)]
pub struct IssuePullRequestLink {
    pub url: String,
    pub html_url: String,
}

/// One issue of a repository.
#[derive(Debug)]
pub struct Issue {
    pub id: i64,
    pub number: i32,
    pub title: String,
    pub body: Option<String>,
    pub state: IssueState,
    pub labels: Vec<IssueLabel>,
    pub milestone: Option<IssueMilestone>,
    pub assignees: Vec<IssueAssignee>,
    pub user: IssueUser,
    pub html_url: String,
    pub created_at: String,
    pub updated_at: String,
    pub closed_at: Option<String>,
    pub pull_request: Option<IssuePullRequestLink>,
}

/// A label of a repository, as listed on its own.
#[derive(Debug)]
pub struct Label {
    pub id: i64,
    pub name: String,
    pub color: String,
    pub description: Option<String>,
}

/// Whether a milestone is open or closed.
#[derive(Clone, Copy, Debug, PartialEq, Eq, Structural)]
pub enum MilestoneState {
    Open,
    Closed,
}

/// A milestone of a repository, as listed on its own.
#[derive(Debug)]
pub struct Milestone {
    pub id: i64,
    pub number: i32,
    pub title: String,
    pub description: Option<String>,
    pub state: MilestoneState,
    pub due_on: Option<String>,
    pub open_issues: i32,
    pub closed_issues: i32,
}

/// One end of a pull request: a branch name and the commit it points at.
#[derive(Debug)]
pub struct PullRequestRef {
    pub label: String,
    pub ref_name: String,
    pub sha: String,
}

/// The lifecycle state of a pull request.
#[derive(Clone, Copy, Debug, PartialEq, Eq, Structural)]
pub enum PullRequestState {
    Open,
    Closed,
    Merged,
}

/// A pull request of a repository.
#[derive(Debug)]
pub struct PullRequest {
    pub id: i64,
    pub number: i32,
    pub title: String,
    pub body: Option<String>,
    pub state: PullRequestState,
    pub html_url: String,
    pub head: PullRequestRef,
    pub base: PullRequestRef,
    pub created_at: String,
    pub updated_at: String,
}

/// What a caller supplies to open a new pull request.
#[derive(Debug)]
pub struct CreatePullRequestRequest {
    pub title: String,
    pub body: Option<String>,
    pub head: String,
    pub base: String,
    pub draft: Option<bool>,
}

/// Optional filters and paging controls for listing issues.
#[derive(Debug)]
pub struct ListIssuesParams {
    pub state: Option<ListIssuesStateFilter>,
    pub labels: Option<String>,
    pub milestone: Option<String>,
    pub assignee: Option<String>,
    pub sort: Option<IssueSortField>,
    pub direction: Option<SortDirection>,
    pub per_page: Option<u32>,
    pub page: Option<u32>,
}

impl Default for ListIssuesParams {
    /// Parameters that select everything: no filter, no explicit order, the
    /// server's default page.
    fn default() -> (r: ListIssuesParams)
        ensures
            r.state is None,
            r.labels is None,
            r.milestone is None,
            r.assignee is None,
            r.sort is None,
            r.direction is None,
            r.per_page is None,
            r.page is None,
    {
        ListIssuesParams {
            state: None,
            labels: None,
            milestone: None,
            assignee: None,
            sort: None,
            direction: None,
            per_page: None,
            page: None,
        }
    }
}

} // verus!
