//! The shapes that the GraphQL queries answer with, the queries themselves, and
//! the search strings they are run with.

use crate::gh::Var;
use crate::github::Repo;
use crate::text::{copy_opt, dec, decimal, opt_view};
use vstd::prelude::*;

verus! {

/// The merge queue.
pub const QUEUE_QUERY: &'static str = "query($owner: String!, $name: String!) {
  repository(owner: $owner, name: $name) {
    mergeQueue {
      entries(first: 100) {
        nodes {
          position
          enqueuedAt
          headCommit { committedDate }
          pullRequest { number title url author { login } }
        }
      }
    }
  }
}";

#[derive(Debug)]
pub struct QueueData {
    pub repository: Option<QueueRepo>,
}

#[derive(Debug)]
pub struct QueueRepo {
    pub merge_queue: Option<MergeQueue>,
}

#[derive(Debug)]
pub struct MergeQueue {
    pub entries: QueueEntries,
}

#[derive(Debug)]
pub struct QueueEntries {
    pub nodes: Vec<QueueEntryNode>,
}

#[derive(Debug)]
pub struct QueueEntryNode {
    pub position: i64,
    /// When the entry joined the queue.
    pub enqueued_at: Option<String>,
    /// The speculative merge commit that the queue is building.
    pub head_commit: Option<QueueCommit>,
    pub pull_request: QueuePr,
}

#[derive(Debug)]
pub struct QueueCommit {
    /// Approximates when the build of the entry started.
    pub committed_date: Option<String>,
}

#[derive(Debug)]
pub struct QueuePr {
    pub number: i64,
    pub title: String,
    pub url: String,
    pub author: Option<Login>,
}

#[derive(Debug)]
pub struct Login {
    pub login: String,
}

/// The login of an author, or `ghost` when the account is gone.
pub open spec fn login_of(author: Option<Login>) -> Seq<char> {
    match author {
        Some(a) => a.login@,
        None => "ghost"@,
    }
}

/// The login of an author, or `ghost` when the account is gone.
pub fn login(author: &Option<Login>) -> (r: String)
    ensures
        r@ == login_of(*author),
{
    match author {
        Some(a) => a.login.clone(),
        None => "ghost".to_string(),
    }
}

/// The entry nodes of a queue response.
pub open spec fn entries_of(data: QueueData) -> Seq<QueueEntryNode> {
    match data.repository {
        Some(r) => match r.merge_queue {
            Some(q) => q.entries.nodes@,
            None => Seq::empty(),
        },
        None => Seq::empty(),
    }
}

/// Extract the entry nodes from a queue response. No repository, no queue and
/// an empty queue all give no entries.
pub fn queue_nodes(data: QueueData) -> (r: Vec<QueueEntryNode>)
    ensures
        r@ == entries_of(data),
{
    match data.repository {
        Some(r) => match r.merge_queue {
            Some(q) => q.entries.nodes,
            None => Vec::new(),
        },
        None => Vec::new(),
    }
}

/// My open pull requests.
pub const MINE_QUERY: &'static str = "query($q: String!) {
  search(type: ISSUE, first: 50, query: $q) {
    nodes {
      ... on PullRequest {
        number title url state mergeable mergeStateStatus isDraft updatedAt
        mergeQueueEntry { position state }
        commits(last: 1) { nodes { commit { checkSuites(first: 50) { totalCount nodes { conclusion checkRuns(first: 1) { totalCount } } } } } }
      }
    }
  }
}";

#[derive(Debug)]
pub struct MineData {
    pub search: MineNodes,
}

#[derive(Debug)]
pub struct MineNodes {
    pub nodes: Vec<PrNode>,
}

#[derive(Debug)]
pub struct PrNode {
    pub number: i64,
    pub title: String,
    pub url: String,
    pub state: Option<String>,
    pub mergeable: Option<String>,
    pub merge_state_status: Option<String>,
    pub is_draft: bool,
    pub updated_at: Option<String>,
    pub merge_queue_entry: Option<QueueEntry>,
    pub commits: Commits,
}

#[derive(Debug)]
pub struct QueueEntry {
    pub position: i64,
    pub state: String,
}

#[derive(Debug)]
pub struct Commits {
    pub nodes: Vec<CommitNode>,
}

#[derive(Debug)]
pub struct CommitNode {
    pub commit: Commit,
}

#[derive(Debug)]
pub struct Commit {
    pub check_suites: CheckSuites,
}

#[derive(Debug)]
pub struct CheckSuites {
    /// How many suites the server has, which can be more than one page.
    pub total_count: u64,
    pub nodes: Vec<CheckSuite>,
}

#[derive(Debug)]
pub struct CheckSuite {
    pub conclusion: Option<String>,
    /// `None` when the viewer cannot see the runs of the suite.
    pub check_runs: Option<CheckRuns>,
}

/// How many check runs a suite produced.
#[derive(Debug)]
pub struct CheckRuns {
    pub total_count: u64,
}

/// `repo:owner/name`, the head of every search.
pub open spec fn repo_term(repo: Repo) -> Seq<char> {
    "repo:"@ + repo.owner@ + "/"@ + repo.name@
}

fn repo_part(repo: &Repo) -> (r: String)
    ensures
        r@ == repo_term(*repo),
{
    let mut s = "repo:".to_string();
    s.append(repo.owner.as_str());
    s.append("/");
    s.append(repo.name.as_str());
    s
}

/// The search for my open pull requests.
pub fn mine_search(repo: &Repo, me: &str) -> (r: String)
    ensures
        r@ == repo_term(*repo) + " is:pr is:open author:"@ + me@
            + " archived:false sort:updated-desc"@,
{
    let mut s = repo_part(repo);
    s.append(" is:pr is:open author:");
    s.append(me);
    s.append(" archived:false sort:updated-desc");
    s
}

#[derive(Debug)]
pub struct MergedData {
    pub search: MergedNodes,
}

#[derive(Debug)]
pub struct MergedNodes {
    pub nodes: Vec<MergedNode>,
}

#[derive(Debug)]
pub struct MergedNode {
    pub number: i64,
    pub title: String,
    pub url: String,
    /// The author, for the pull requests that I only reviewed.
    pub author: Option<Login>,
    pub merged_at: Option<String>,
    pub updated_at: Option<String>,
}

impl MergedNode {
    /// A merged pull request. One without an update time was last updated when it
    /// merged.
    pub fn new(
        number: i64,
        title: String,
        url: String,
        author: Option<Login>,
        merged_at: Option<String>,
        updated_at: Option<String>,
    ) -> (r: MergedNode)
        ensures
            r.number == number,
            r.title == title,
            r.url == url,
            r.author == author,
            r.merged_at == merged_at,
            opt_view(r.updated_at) == if updated_at is Some {
                opt_view(updated_at)
            } else {
                opt_view(merged_at)
            },
    {
        let updated_at = match updated_at {
            Some(t) => Some(t),
            None => copy_opt(&merged_at),
        };
        MergedNode { number, title, url, author, merged_at, updated_at }
    }
}

/// The page size for a limit: at least one row, at most a hundred.
pub open spec fn page_size(limit: nat) -> nat {
    if limit < 1 {
        1
    } else if limit > 100 {
        100
    } else {
        limit
    }
}

/// The text of the recently-merged query.
pub open spec fn merged_query_text(limit: nat) -> Seq<char> {
    "query($q: String!) {
  search(type: ISSUE, first: "@ + dec(page_size(limit)) + ", query: $q) {
    nodes {
      ... on PullRequest {
        number title url mergedAt author { login }
      }
    }
  }
}"@
}

/// The recently-merged query for a page of `limit` rows, between 1 and 100.
pub fn merged_query(limit: usize) -> (r: String)
    ensures
        r@ == merged_query_text(limit as nat),
{
    let first: usize = if limit < 1 {
        1
    } else if limit > 100 {
        100
    } else {
        limit
    };
    let mut s = "query($q: String!) {
  search(type: ISSUE, first: ".to_string();
    let n = decimal(first as u128);
    s.append(n.as_str());
    s.append(
        ", query: $q) {
    nodes {
      ... on PullRequest {
        number title url mergedAt author { login }
      }
    }
  }
}",
    );
    s
}

/// The search for my pull requests merged since a date. A merge bumps the
/// update time, so the most recent merges come first even when capped.
pub fn merged_search(repo: &Repo, me: &str, since: &str) -> (r: String)
    ensures
        r@ == repo_term(*repo) + " is:pr is:merged author:"@ + me@ + " merged:>="@ + since@
            + " sort:updated-desc"@,
{
    let mut s = repo_part(repo);
    s.append(" is:pr is:merged author:");
    s.append(me);
    s.append(" merged:>=");
    s.append(since);
    s.append(" sort:updated-desc");
    s
}

/// The search for merged pull requests that I reviewed, without my own.
pub fn reviewed_merged_search(repo: &Repo, me: &str, since: &str) -> (r: String)
    ensures
        r@ == repo_term(*repo) + " is:pr is:merged reviewed-by:"@ + me@ + " -author:"@ + me@
            + " merged:>="@ + since@ + " sort:updated-desc"@,
{
    let mut s = repo_part(repo);
    s.append(" is:pr is:merged reviewed-by:");
    s.append(me);
    s.append(" -author:");
    s.append(me);
    s.append(" merged:>=");
    s.append(since);
    s.append(" sort:updated-desc");
    s
}

/// Two searches in one request: the pull requests that request my review, and
/// those that I have reviewed. One can be in both.
pub const REVIEWS_QUERY: &'static str = "query($me: String!, $requested: String!, $reviewed: String!) {
  requested: search(type: ISSUE, first: 50, query: $requested) { nodes { ...rev } }
  reviewed: search(type: ISSUE, first: 50, query: $reviewed) { nodes { ...rev } }
}
fragment rev on PullRequest {
  number title url isDraft updatedAt
  author { login }
  commits(last: 1) { nodes { commit { committedDate } } }
  reviews(author: $me, first: 20, states: [APPROVED, CHANGES_REQUESTED, COMMENTED, DISMISSED]) { nodes { submittedAt } }
}";

#[derive(Debug)]
pub struct ReviewsData {
    /// Pull requests that request my review, directly or through a team.
    pub requested: ReviewSearch,
    /// Pull requests that I have already reviewed.
    pub reviewed: ReviewSearch,
}

#[derive(Debug)]
pub struct ReviewSearch {
    pub nodes: Vec<ReviewPrNode>,
}

#[derive(Debug)]
pub struct ReviewPrNode {
    pub number: i64,
    pub title: String,
    pub url: String,
    pub is_draft: bool,
    pub updated_at: Option<String>,
    pub author: Option<Login>,
    pub commits: ReviewCommits,
    /// My submitted reviews.
    pub reviews: MyReviews,
}

#[derive(Debug)]
pub struct ReviewCommits {
    pub nodes: Vec<ReviewCommitNode>,
}

#[derive(Debug)]
pub struct ReviewCommitNode {
    pub commit: ReviewCommit,
}

#[derive(Debug)]
pub struct ReviewCommit {
    pub committed_date: Option<String>,
}

#[derive(Debug)]
pub struct MyReviews {
    pub nodes: Vec<MyReview>,
}

#[derive(Debug)]
pub struct MyReview {
    pub submitted_at: Option<String>,
}

/// The two review searches, both for open pull requests that are not mine.
/// `requested_qualifier` is `review-requested` (me and my teams) or
/// `user-review-requested` (only me).
pub fn reviews_searches(repo: &Repo, me: &str, requested_qualifier: &str) -> (r: (String, String))
    ensures
        r.0@ == repo_term(*repo) + " is:pr is:open "@ + requested_qualifier@ + ":"@ + me@
            + " -author:"@ + me@ + " archived:false sort:updated-desc"@,
        r.1@ == repo_term(*repo) + " is:pr is:open reviewed-by:"@ + me@ + " -author:"@ + me@
            + " archived:false sort:updated-desc"@,
{
    let mut requested = repo_part(repo);
    requested.append(" is:pr is:open ");
    requested.append(requested_qualifier);
    requested.append(":");
    requested.append(me);
    requested.append(" -author:");
    requested.append(me);
    requested.append(" archived:false sort:updated-desc");
    let mut reviewed = repo_part(repo);
    reviewed.append(" is:pr is:open reviewed-by:");
    reviewed.append(me);
    reviewed.append(" -author:");
    reviewed.append(me);
    reviewed.append(" archived:false sort:updated-desc");
    (requested, reviewed)
}


// ---------------------------------------------------------------------------
// Requests
// ---------------------------------------------------------------------------

/// A query to send, with its variables.
#[derive(Debug)]
pub struct Request {
    pub query: String,
    pub vars: Vec<Var>,
}

/// What a request says: the query, and the variables by name and value.
pub struct RequestView {
    pub query: Seq<char>,
    pub vars: Seq<(Seq<char>, Seq<char>)>,
}

impl View for Request {
    type V = RequestView;

    open spec fn view(&self) -> RequestView {
        RequestView {
            query: self.query@,
            vars: Seq::new(
                self.vars@.len(),
                |i: int| (self.vars@[i].key@, self.vars@[i].value@),
            ),
        }
    }
}

fn var(key: &str, value: &str) -> (r: Var)
    ensures
        r.key@ == key@,
        r.value@ == value@,
{
    Var { key: key.to_string(), value: value.to_string() }
}

/// A request with one variable `q`, the search.
pub open spec fn search_request(query: Seq<char>, q: Seq<char>) -> RequestView {
    RequestView { query, vars: seq![("q"@, q)] }
}

fn search_for(query: &str, q: &str) -> (r: Request)
    ensures
        r@ == search_request(query@, q@),
{
    let mut vars: Vec<Var> = Vec::new();
    vars.push(var("q", q));
    let r = Request { query: query.to_string(), vars };
    assert(r@.vars =~= seq![("q"@, q@)]);
    r
}

/// The request for the merge queue.
pub fn fetch_queue(repo: &Repo) -> (r: Request)
    ensures
        r@ == (RequestView {
            query: QUEUE_QUERY@,
            vars: seq![("owner"@, repo.owner@), ("name"@, repo.name@)],
        }),
{
    let mut vars: Vec<Var> = Vec::new();
    vars.push(var("owner", repo.owner.as_str()));
    vars.push(var("name", repo.name.as_str()));
    let r = Request { query: QUEUE_QUERY.to_string(), vars };
    assert(r@.vars =~= seq![("owner"@, repo.owner@), ("name"@, repo.name@)]);
    r
}

/// The request for my open pull requests.
pub fn fetch_my_prs(repo: &Repo, me: &str) -> (r: Request)
    ensures
        r@ == search_request(
            MINE_QUERY@,
            repo_term(*repo) + " is:pr is:open author:"@ + me@
                + " archived:false sort:updated-desc"@,
        ),
{
    let q = mine_search(repo, me);
    search_for(MINE_QUERY, q.as_str())
}

/// The request for my pull requests merged since a date.
pub fn fetch_merged(repo: &Repo, me: &str, since: &str, limit: usize) -> (r: Request)
    ensures
        r@ == search_request(
            merged_query_text(limit as nat),
            repo_term(*repo) + " is:pr is:merged author:"@ + me@ + " merged:>="@ + since@
                + " sort:updated-desc"@,
        ),
{
    let q = merged_search(repo, me, since);
    let query = merged_query(limit);
    search_for(query.as_str(), q.as_str())
}

/// The request for the merged pull requests that I reviewed since a date.
pub fn fetch_reviewed_merged(repo: &Repo, me: &str, since: &str, limit: usize) -> (r: Request)
    ensures
        r@ == search_request(
            merged_query_text(limit as nat),
            repo_term(*repo) + " is:pr is:merged reviewed-by:"@ + me@ + " -author:"@ + me@
                + " merged:>="@ + since@ + " sort:updated-desc"@,
        ),
{
    let q = reviewed_merged_search(repo, me, since);
    let query = merged_query(limit);
    search_for(query.as_str(), q.as_str())
}

/// The request for the pull requests that I review.
pub fn fetch_reviews(repo: &Repo, me: &str, requested_qualifier: &str) -> (r: Request)
    ensures
        r@ == (RequestView {
            query: REVIEWS_QUERY@,
            vars: seq![
                ("me"@, me@),
                (
                    "requested"@,
                    repo_term(*repo) + " is:pr is:open "@ + requested_qualifier@ + ":"@ + me@
                        + " -author:"@ + me@ + " archived:false sort:updated-desc"@,
                ),
                (
                    "reviewed"@,
                    repo_term(*repo) + " is:pr is:open reviewed-by:"@ + me@ + " -author:"@ + me@
                        + " archived:false sort:updated-desc"@,
                ),
            ],
        }),
{
    let (requested, reviewed) = reviews_searches(repo, me, requested_qualifier);
    let mut vars: Vec<Var> = Vec::new();
    vars.push(var("me", me));
    vars.push(var("requested", requested.as_str()));
    vars.push(var("reviewed", reviewed.as_str()));
    let r = Request { query: REVIEWS_QUERY.to_string(), vars };
    assert(r@.vars =~= seq![
        ("me"@, me@),
        ("requested"@, requested@),
        ("reviewed"@, reviewed@),
    ]);
    r
}

/// A page is as large as the limit, but never empty and never more than the server
/// gives at once.
pub proof fn a_page_is_as_large_as_the_limit(limit: nat)
    ensures
        1 <= page_size(limit) <= 100,
        1 <= limit <= 100 ==> page_size(limit) == limit,
        limit == 0 ==> page_size(limit) == 1,
        limit > 100 ==> page_size(limit) == 100,
{
}

/// The entries of a queue are those of the repository's queue, in their order, and
/// none where there is no repository or no queue.
pub proof fn the_entries_are_those_of_the_queue(data: QueueData, r: Vec<QueueEntryNode>)
    requires
        call_ensures(queue_nodes, (data,), r),
    ensures
        data.repository is None ==> r@.len() == 0,
        data.repository matches Some(x) ==> (x.merge_queue is None ==> r@.len() == 0),
        data.repository matches Some(x) ==> (x.merge_queue matches Some(q) ==> r@
            == q.entries.nodes@),
{
}

} // verus!
