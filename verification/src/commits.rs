//! My commits in the next version and in the last releases, and the release that
//! shipped each pull request. The server is asked page by page: what to ask, what
//! to take from each answer, and what all the answers come to.

use crate::github::Repo;
use crate::order::{rows_view, rows_view_push};
use crate::text::{
    chars_of, copy_opt, dec, decimal, first_line, line_one, number, opt_view, parse_number, same,
    trim_end, trimmed_to,
};
use std::collections::HashMap;
use vstd::prelude::*;

verus! {

/// A release: its tag and its page.
#[derive(Debug, PartialEq, Eq)]
pub struct ReleaseRef {
    pub tag: String,
    pub url: String,
}

/// What a release is, as text.
pub struct ReleaseView {
    pub tag: Seq<char>,
    pub url: Seq<char>,
}

impl View for ReleaseRef {
    type V = ReleaseView;

    open spec fn view(&self) -> ReleaseView {
        ReleaseView { tag: self.tag@, url: self.url@ }
    }
}

impl Clone for ReleaseRef {
    fn clone(&self) -> (r: Self)
        ensures
            r@ == self@,
    {
        ReleaseRef { tag: self.tag.clone(), url: self.url.clone() }
    }
}

/// The release that shipped each pull request.
pub type ReleaseMap = HashMap<i64, ReleaseRef>;

/// The release of a pull request in a map, if it has one.
pub open spec fn release_in(releases: Map<i64, ReleaseRef>, number: i64) -> Option<ReleaseView> {
    if releases.contains_key(number) {
        Some(releases[number]@)
    } else {
        None
    }
}

/// The release that shipped a pull request, if any did.
pub fn release_of(releases: &ReleaseMap, number: i64) -> (r: Option<ReleaseRef>)
    ensures
        match r {
            Some(x) => release_in(releases@, number) == Some(x@),
            None => release_in(releases@, number) is None,
        },
{
    match releases.get(&number) {
        Some(x) => Some(x.clone()),
        None => None,
    }
}


/// How many recent releases to show.
pub const RELEASES: usize = 4;

/// How many pages of commits to count when there is no older release.
pub const MAX_PAGES: u64 = 5;

/// How many pages of releases to look through.
pub const MAX_RELEASE_PAGES: u64 = 20;

/// My work in the next version and in the last releases.
#[derive(Debug, PartialEq, Eq)]
pub struct CommitStats {
    /// False when the counts could not be had.
    pub available: bool,
    /// My work in the next, still unreleased version.
    pub upcoming: Option<Bucket>,
    /// The most recent releases, newest first, with my work in them.
    pub releases: Vec<Release>,
}

/// My commit count for one version, and the page that its label links to.
#[derive(Debug, PartialEq, Eq)]
pub struct Bucket {
    pub count: Count,
    pub url: String,
}

/// My work in one release.
#[derive(Debug, PartialEq, Eq)]
pub struct Release {
    pub tag: String,
    pub bucket: Bucket,
    /// When it was published, if known.
    pub published_at: Option<String>,
}

/// A number of commits.
#[derive(Clone, Copy, Debug, PartialEq, Eq, Structural)]
pub struct Count {
    pub mine: usize,
    /// The range was larger than what was fetched, so `mine` is a lower bound.
    pub capped: bool,
}

/// A release as the server lists it.
#[derive(Debug)]
pub struct ReleaseInfo {
    pub tag_name: String,
    pub draft: bool,
    pub prerelease: bool,
    pub published_at: Option<String>,
}

/// A release tag to show, and when it was published.
#[derive(Debug)]
pub struct Tag {
    pub name: String,
    pub published_at: Option<String>,
}

/// The commits between two versions.
#[derive(Debug)]
pub struct Comparison {
    pub total_commits: usize,
    pub commits: Vec<CommitNode>,
}

#[derive(Debug)]
pub struct CommitNode {
    pub author: Option<Author>,
    pub commit: CommitMeta,
}

#[derive(Debug)]
pub struct CommitMeta {
    pub message: String,
}

#[derive(Debug)]
pub struct Author {
    pub login: String,
}

/// What a bucket holds.
pub struct BucketView {
    pub count: Count,
    pub url: Seq<char>,
}

/// What a release holds.
pub struct ReleaseRowView {
    pub tag: Seq<char>,
    pub bucket: BucketView,
    pub published_at: Option<Seq<char>>,
}

/// What a tag holds.
pub struct TagView {
    pub name: Seq<char>,
    pub published_at: Option<Seq<char>>,
}

impl View for Bucket {
    type V = BucketView;

    open spec fn view(&self) -> BucketView {
        BucketView { count: self.count, url: self.url@ }
    }
}

impl View for Release {
    type V = ReleaseRowView;

    open spec fn view(&self) -> ReleaseRowView {
        ReleaseRowView {
            tag: self.tag@,
            bucket: self.bucket@,
            published_at: opt_view(self.published_at),
        }
    }
}

impl View for Tag {
    type V = TagView;

    open spec fn view(&self) -> TagView {
        TagView { name: self.name@, published_at: opt_view(self.published_at) }
    }
}

/// What the counts hold.
#[verifier::ext_equal]
pub struct StatsView {
    pub available: bool,
    pub upcoming: Option<BucketView>,
    pub releases: Seq<ReleaseRowView>,
}

impl View for CommitStats {
    type V = StatsView;

    open spec fn view(&self) -> StatsView {
        StatsView {
            available: self.available,
            upcoming: match self.upcoming {
                Some(b) => Some(b@),
                None => None,
            },
            releases: rows_view(self.releases@),
        }
    }
}

impl Clone for Bucket {
    fn clone(&self) -> (r: Self)
        ensures
            r@ == self@,
    {
        Bucket { count: self.count, url: self.url.clone() }
    }
}

impl Clone for Release {
    fn clone(&self) -> (r: Self)
        ensures
            r@ == self@,
    {
        Release {
            tag: self.tag.clone(),
            bucket: self.bucket.clone(),
            published_at: copy_opt(&self.published_at),
        }
    }
}

impl Clone for CommitStats {
    fn clone(&self) -> (r: Self)
        ensures
            r@ == self@,
    {
        let mut releases: Vec<Release> = Vec::new();
        let mut i: usize = 0;
        while i < self.releases.len()
            invariant
                i <= self.releases@.len(),
                rows_view(releases@) =~= rows_view(self.releases@).take(i as int),
            decreases self.releases@.len() - i,
        {
            let row = self.releases[i].clone();
            proof {
                rows_view_push(releases@, row);
            }
            releases.push(row);
            i += 1;
        }
        assert(rows_view(releases@) =~= rows_view(self.releases@));
        CommitStats {
            available: self.available,
            upcoming: match &self.upcoming {
                Some(b) => Some(b.clone()),
                None => None,
            },
            releases,
        }
    }
}

impl CommitStats {
    /// Counts that could not be had.
    pub fn unavailable() -> (r: CommitStats)
        ensures
            r@ == (StatsView { available: false, upcoming: None, releases: Seq::empty() }),
    {
        let r = CommitStats { available: false, upcoming: None, releases: Vec::new() };
        assert(r@.releases =~= Seq::empty());
        r
    }
}

// ---------------------------------------------------------------------------
// Pull-request references in commit subjects
// ---------------------------------------------------------------------------

/// Where `(#` last stands in `s`, or -1 when it does not.
pub open spec fn last_mark(s: Seq<char>) -> int
    decreases s.len(),
{
    if s.len() < 2 {
        -1
    } else if s[s.len() - 2] == '(' && s[s.len() - 1] == '#' {
        s.len() - 2
    } else {
        last_mark(s.drop_last())
    }
}

/// The pull request that a commit subject ends with, as `(#12)`.
pub open spec fn reference(subject: Seq<char>) -> Option<nat> {
    let s = trim_end(subject);
    if s.len() > 0 && s.last() == ')' && last_mark(s.drop_last()) >= 0 {
        number(s.drop_last().skip(last_mark(s.drop_last()) + 2), u32::MAX as nat)
    } else {
        None
    }
}

/// The trailing `(#12)` of a commit subject, or `None`. It must be at the very
/// end, and a number.
pub fn pr_number(subject: &str) -> (r: Option<u32>)
    ensures
        match r {
            Some(n) => reference(subject@) == Some(n as nat),
            None => reference(subject@) is None,
        },
{
    let cs = chars_of(subject);
    let end = trimmed_to(&cs, 0);
    let ghost s = trim_end(subject@);
    proof {
        assert(cs@.skip(0) =~= subject@);
        assert(s == cs@.subrange(0, end as int));
    }
    if end == 0 || cs[end - 1] != ')' {
        return None;
    }
    let ghost inner = s.drop_last();
    let mut at: usize = end - 1;
    proof {
        assert(inner.take(inner.len() as int) =~= inner);
    }
    while at >= 2 && !(cs[at - 2] == '(' && cs[at - 1] == '#')
        invariant
            at < end <= cs@.len(),
            s == cs@.subrange(0, end as int),
            inner == s.drop_last(),
            last_mark(inner) == last_mark(inner.take(at as int)),
        decreases at,
    {
        proof {
            let t = inner.take(at as int);
            assert(t[t.len() - 2] == cs@[at - 2] && t[t.len() - 1] == cs@[at - 1]);
            assert(t.drop_last() =~= inner.take(at - 1));
        }
        at -= 1;
    }
    if at < 2 {
        return None;
    }
    proof {
        let t = inner.take(at as int);
        assert(t[t.len() - 2] == cs@[at - 2] && t[t.len() - 1] == cs@[at - 1]);
        assert(inner.skip(at as int) =~= cs@.subrange(at as int, end - 1));
    }
    match parse_number(&cs, at, end - 1, u32::MAX as u64) {
        Some(n) => Some(n as u32),
        None => None,
    }
}

/// The pull request that the first line of a commit's message ends with.
pub open spec fn commit_reference(node: CommitNode) -> Option<nat> {
    reference(first_line(node.commit.message@))
}

/// The pull request of a commit, if its first line names one.
pub fn commit_pr(node: &CommitNode) -> (r: Option<u32>)
    ensures
        match r {
            Some(n) => commit_reference(*node) == Some(n as nat),
            None => commit_reference(*node) is None,
        },
{
    let line = line_one(node.commit.message.as_str());
    pr_number(line.as_str())
}

// ---------------------------------------------------------------------------
// Counting
// ---------------------------------------------------------------------------

/// Whether a commit is by `me`.
pub open spec fn is_mine(c: CommitNode, me: Seq<char>) -> bool {
    c.author matches Some(a) && a.login@ == me
}

/// How many of the commits are by `me`.
pub open spec fn mine_count(commits: Seq<CommitNode>, me: Seq<char>) -> nat
    decreases commits.len(),
{
    if commits.len() == 0 {
        0
    } else {
        mine_count(commits.drop_last(), me) + if is_mine(commits.last(), me) {
            1nat
        } else {
            0nat
        }
    }
}

/// The pull requests of the commits by `me`, in order.
pub open spec fn mine_prs(commits: Seq<CommitNode>, me: Seq<char>) -> Seq<nat>
    decreases commits.len(),
{
    if commits.len() == 0 {
        Seq::empty()
    } else {
        let rest = mine_prs(commits.drop_last(), me);
        match commit_reference(commits.last()) {
            Some(n) => if is_mine(commits.last(), me) {
                rest.push(n)
            } else {
                rest
            },
            None => rest,
        }
    }
}

/// The pull requests of all the commits, in order.
pub open spec fn all_prs(commits: Seq<CommitNode>) -> Seq<nat>
    decreases commits.len(),
{
    if commits.len() == 0 {
        Seq::empty()
    } else {
        match commit_reference(commits.last()) {
            Some(n) => all_prs(commits.drop_last()).push(n),
            None => all_prs(commits.drop_last()),
        }
    }
}

/// Numbers as mathematical ones.
pub open spec fn nats(s: Seq<u32>) -> Seq<nat> {
    Seq::new(s.len(), |i: int| s[i] as nat)
}

proof fn nats_push(s: Seq<u32>, n: u32)
    ensures
        nats(s.push(n)) == nats(s).push(n as nat),
{
    assert(nats(s.push(n)) =~= nats(s).push(n as nat));
}

/// My commits among `commits`, and the pull requests they name. `total` is the
/// size of the whole range: beyond what was fetched the count is a lower bound.
pub fn mine_in(commits: &[CommitNode], total: usize, me: &str) -> (r: (Count, Vec<u32>))
    ensures
        r.0.mine == mine_count(commits@, me@),
        r.0.capped == (total > commits@.len()),
        nats(r.1@) == mine_prs(commits@, me@),
{
    let mut mine: usize = 0;
    let mut prs: Vec<u32> = Vec::new();
    let mut i: usize = 0;
    proof {
        assert(commits@.take(0) =~= Seq::empty());
        assert(nats(prs@) =~= Seq::empty());
    }
    while i < commits.len()
        invariant
            i <= commits@.len(),
            mine <= i,
            mine == mine_count(commits@.take(i as int), me@),
            nats(prs@) == mine_prs(commits@.take(i as int), me@),
        decreases commits@.len() - i,
    {
        let c = &commits[i];
        proof {
            assert(commits@.take(i + 1).drop_last() =~= commits@.take(i as int));
        }
        let by_me = match &c.author {
            Some(a) => same(a.login.as_str(), me),
            None => false,
        };
        if by_me {
            mine += 1;
            if let Some(n) = commit_pr(c) {
                proof {
                    nats_push(prs@, n);
                }
                prs.push(n);
            }
        }
        i += 1;
    }
    proof {
        assert(commits@.take(i as int) =~= commits@);
    }
    (Count { mine, capped: total > commits.len() }, prs)
}

// ---------------------------------------------------------------------------
// Asking the server
// ---------------------------------------------------------------------------

/// `repos/owner/name`, the head of every path.
pub open spec fn repo_path(repo: Repo) -> Seq<char> {
    "repos/"@ + repo.owner@ + "/"@ + repo.name@
}

fn path_of(repo: &Repo) -> (r: String)
    ensures
        r@ == repo_path(*repo),
{
    let mut s = "repos/".to_string();
    s.append(repo.owner.as_str());
    s.append("/");
    s.append(repo.name.as_str());
    s
}

/// The path of the comparison `base...head`.
pub fn compare_path(repo: &Repo, base: &str, head: &str) -> (r: String)
    ensures
        r@ == repo_path(*repo) + "/compare/"@ + base@ + "..."@ + head@,
{
    let mut s = path_of(repo);
    s.append("/compare/");
    s.append(base);
    s.append("...");
    s.append(head);
    s
}

/// My commits in a comparison.
pub fn compare_mine(answer: &Comparison, me: &str) -> (r: (Count, Vec<u32>))
    ensures
        r.0.mine == mine_count(answer.commits@, me@),
        r.0.capped == (answer.total_commits > answer.commits@.len()),
        nats(r.1@) == mine_prs(answer.commits@, me@),
{
    mine_in(answer.commits.as_slice(), answer.total_commits, me)
}

/// The tags of releases, as views: drafts are skipped, and pre-releases too
/// unless they are wanted.
pub open spec fn shown(releases: Seq<ReleaseInfo>, include_prereleases: bool) -> Seq<TagView>
    decreases releases.len(),
{
    if releases.len() == 0 {
        Seq::empty()
    } else {
        let rest = shown(releases.drop_last(), include_prereleases);
        let r = releases.last();
        if !r.draft && (include_prereleases || !r.prerelease) {
            rest.push(TagView { name: r.tag_name@, published_at: opt_view(r.published_at) })
        } else {
            rest
        }
    }
}

/// The search for release tags, page by page, until there are enough of them to
/// show, one more to compare the oldest against, or the pages run out. A run of
/// skipped releases can fill a page, so one page is not always enough.
#[derive(Debug)]
pub struct ReleasePager {
    /// The page to ask for next.
    pub page: u64,
    pub tags: Vec<Tag>,
    pub done: bool,
}

impl ReleasePager {
    /// Whether the search is in a state that it can reach.
    pub open spec fn wf(self) -> bool {
        1 <= self.page <= MAX_RELEASE_PAGES
    }

    /// Before the first page.
    pub fn new() -> (r: ReleasePager)
        ensures
            r.wf(),
            r.page == 1,
            rows_view(r.tags@) == Seq::<TagView>::empty(),
            !r.done,
    {
        let r = ReleasePager { page: 1, tags: Vec::new(), done: false };
        assert(rows_view(r.tags@) =~= Seq::<TagView>::empty());
        r
    }

    /// The path of the page to ask for next.
    pub fn path(&self, repo: &Repo) -> (r: String)
        ensures
            r@ == repo_path(*repo) + "/releases?per_page=50&page="@ + dec(self.page as nat),
    {
        let mut s = path_of(repo);
        s.append("/releases?per_page=50&page=");
        let n = decimal(self.page as u128);
        s.append(n.as_str());
        s
    }

    /// Take in a page.
    pub fn accept(&mut self, releases: &Vec<ReleaseInfo>, include_prereleases: bool)
        requires
            old(self).wf(),
        ensures
            final(self).wf(),
            rows_view(final(self).tags@) == rows_view(old(self).tags@) + shown(
                releases@,
                include_prereleases,
            ),
            final(self).done == (final(self).tags@.len() > RELEASES || releases@.len() < 50
                || old(self).page == MAX_RELEASE_PAGES),
            final(self).page == if old(self).page == MAX_RELEASE_PAGES {
                old(self).page as int
            } else {
                old(self).page + 1
            },
    {
        let ghost before = rows_view(self.tags@);
        let mut i: usize = 0;
        proof {
            assert(releases@.take(0) =~= Seq::empty());
            assert(before + Seq::<TagView>::empty() =~= before);
        }
        while i < releases.len()
            invariant
                i <= releases@.len(),
                self.page == old(self).page,
                rows_view(self.tags@) == before + shown(
                    releases@.take(i as int),
                    include_prereleases,
                ),
            decreases releases@.len() - i,
        {
            let r = &releases[i];
            proof {
                assert(releases@.take(i + 1).drop_last() =~= releases@.take(i as int));
            }
            if !r.draft && (include_prereleases || !r.prerelease) {
                let tag = Tag {
                    name: r.tag_name.clone(),
                    published_at: copy_opt(&r.published_at),
                };
                proof {
                    rows_view_push(self.tags@, tag);
                    let rest = shown(releases@.take(i as int), include_prereleases);
                    assert((before + rest).push(tag@) =~= before + rest.push(tag@));
                }
                self.tags.push(tag);
            }
            i += 1;
        }
        proof {
            assert(releases@.take(i as int) =~= releases@);
        }
        self.done = self.tags.len() > RELEASES || releases.len() < 50 || self.page
            == MAX_RELEASE_PAGES;
        if self.page < MAX_RELEASE_PAGES {
            self.page = self.page + 1;
        }
    }
}

/// The count of my commits reachable from a ref, page by page, when there is no
/// older release to compare with.
#[derive(Debug)]
pub struct CommitPager {
    /// The page to ask for next.
    pub page: u64,
    pub mine: usize,
    pub prs: Vec<u32>,
    /// The count, once it is known.
    pub count: Option<Count>,
}

impl CommitPager {
    /// Whether the count is in a state that it can reach.
    pub open spec fn wf(self) -> bool {
        1 <= self.page <= MAX_PAGES
    }

    /// Before the first page.
    pub fn new() -> (r: CommitPager)
        ensures
            r.wf(),
            r.page == 1,
            r.mine == 0,
            nats(r.prs@) == Seq::<nat>::empty(),
            r.count is None,
    {
        let r = CommitPager { page: 1, mine: 0, prs: Vec::new(), count: None };
        assert(nats(r.prs@) =~= Seq::<nat>::empty());
        r
    }

    /// The path of the page to ask for next.
    pub fn path(&self, repo: &Repo, me: &str, reff: &str) -> (r: String)
        ensures
            r@ == repo_path(*repo) + "/commits?sha="@ + reff@ + "&author="@ + me@
                + "&per_page=100&page="@ + dec(self.page as nat),
    {
        let mut s = path_of(repo);
        s.append("/commits?sha=");
        s.append(reff);
        s.append("&author=");
        s.append(me);
        s.append("&per_page=100&page=");
        let n = decimal(self.page as u128);
        s.append(n.as_str());
        s
    }

    /// Take in a page. A short page is the last one; after the last page that is
    /// looked at, the count is a lower bound.
    pub fn accept(&mut self, nodes: &Vec<CommitNode>)
        requires
            old(self).wf(),
            old(self).mine + nodes@.len() <= usize::MAX,
        ensures
            final(self).wf(),
            final(self).mine == old(self).mine + nodes@.len(),
            nats(final(self).prs@) == nats(old(self).prs@) + all_prs(nodes@),
            final(self).page == if old(self).page == MAX_PAGES {
                old(self).page as int
            } else {
                old(self).page + 1
            },
            final(self).count == if nodes@.len() < 100 {
                Some(Count { mine: final(self).mine, capped: false })
            } else if old(self).page == MAX_PAGES {
                Some(Count { mine: final(self).mine, capped: true })
            } else {
                None
            },
    {
        let ghost before = nats(self.prs@);
        let mut i: usize = 0;
        proof {
            assert(nodes@.take(0) =~= Seq::empty());
            assert(before + Seq::<nat>::empty() =~= before);
        }
        while i < nodes.len()
            invariant
                i <= nodes@.len(),
                self.page == old(self).page,
                self.mine == old(self).mine,
                nats(self.prs@) == before + all_prs(nodes@.take(i as int)),
            decreases nodes@.len() - i,
        {
            proof {
                assert(nodes@.take(i + 1).drop_last() =~= nodes@.take(i as int));
            }
            if let Some(n) = commit_pr(&nodes[i]) {
                proof {
                    nats_push(self.prs@, n);
                    let rest = all_prs(nodes@.take(i as int));
                    assert((before + rest).push(n as nat) =~= before + rest.push(n as nat));
                }
                self.prs.push(n);
            }
            i += 1;
        }
        proof {
            assert(nodes@.take(i as int) =~= nodes@);
        }
        self.mine = self.mine + nodes.len();
        self.count = if nodes.len() < 100 {
            Some(Count { mine: self.mine, capped: false })
        } else if self.page == MAX_PAGES {
            Some(Count { mine: self.mine, capped: true })
        } else {
            None
        };
        if self.page < MAX_PAGES {
            self.page = self.page + 1;
        }
    }
}

// ---------------------------------------------------------------------------
// What the answers come to
// ---------------------------------------------------------------------------

/// A range of versions to count my commits in: everything reachable from `head`
/// when there is no `base`.
#[derive(Debug, PartialEq, Eq)]
pub struct Range {
    pub base: Option<String>,
    pub head: String,
}

/// What a range says.
pub struct RangeView {
    pub base: Option<Seq<char>>,
    pub head: Seq<char>,
}

impl View for Range {
    type V = RangeView;

    open spec fn view(&self) -> RangeView {
        RangeView { base: opt_view(self.base), head: self.head@ }
    }
}

/// How many of the tags are shown.
pub open spec fn shown_count(tags: Seq<TagView>) -> nat {
    if tags.len() <= RELEASES {
        tags.len()
    } else {
        RELEASES as nat
    }
}

/// The name of the tag at a position, if there is one.
pub open spec fn name_at(tags: Seq<TagView>, i: int) -> Option<Seq<char>> {
    if 0 <= i < tags.len() {
        Some(tags[i].name)
    } else {
        None
    }
}

/// The ranges to ask for: what comes after the latest tag, then each shown
/// release since the one before it.
pub open spec fn ranges_of(tags: Seq<TagView>, default_branch: Seq<char>) -> Seq<RangeView> {
    Seq::new(
        shown_count(tags) + 1,
        |i: int|
            if i == 0 {
                RangeView { base: name_at(tags, 0), head: default_branch }
            } else {
                RangeView { base: name_at(tags, i), head: tags[i - 1].name }
            },
    )
}

fn name_of(tags: &Vec<Tag>, i: usize) -> (r: Option<String>)
    ensures
        opt_view(r) == name_at(rows_view(tags@), i as int),
{
    if i < tags.len() {
        assert(rows_view(tags@)[i as int] == tags@[i as int]@);
        Some(tags[i].name.clone())
    } else {
        None
    }
}

/// The ranges to count my commits in, the upcoming version first.
pub fn ranges(tags: &Vec<Tag>, default_branch: &str) -> (r: Vec<Range>)
    ensures
        rows_view(r@) == ranges_of(rows_view(tags@), default_branch@),
{
    let mut out: Vec<Range> = Vec::new();
    let ghost want = ranges_of(rows_view(tags@), default_branch@);
    let first = Range { base: name_of(tags, 0), head: default_branch.to_string() };
    proof {
        rows_view_push(out@, first);
    }
    out.push(first);
    let mut i: usize = 0;
    proof {
        assert(rows_view(out@) =~= want.take(1));
    }
    while i < tags.len() && i < RELEASES
        invariant
            i <= tags@.len(),
            i <= RELEASES,
            want == ranges_of(rows_view(tags@), default_branch@),
            rows_view(out@) == want.take(i + 1),
        decreases tags@.len() - i,
    {
        let range = Range { base: name_of(tags, i + 1), head: tags[i].name.clone() };
        proof {
            assert(range@ == want[i + 1]);
            rows_view_push(out@, range);
            assert(want.take(i + 1).push(range@) =~= want.take(i + 2));
        }
        out.push(range);
        i += 1;
    }
    proof {
        assert(want.take(i + 1) =~= want);
    }
    out
}

/// The counts and pull requests that were had for a range.
#[derive(Debug)]
pub struct Tally {
    pub count: Count,
    pub prs: Vec<u32>,
}

/// `https://github.com/owner/name`.
pub open spec fn repo_url(repo: Repo) -> Seq<char> {
    "https://github.com/"@ + repo.owner@ + "/"@ + repo.name@
}

/// The page of a release.
pub open spec fn release_url(repo: Repo, tag: Seq<char>) -> Seq<char> {
    repo_url(repo) + "/releases/tag/"@ + tag
}

/// The page of what is to come: the log since the latest release, or the whole
/// branch when there is none.
pub open spec fn upcoming_url(
    repo: Repo,
    latest: Option<Seq<char>>,
    default_branch: Seq<char>,
) -> Seq<char> {
    match latest {
        Some(t) => repo_url(repo) + "/compare/"@ + t + "..."@ + default_branch,
        None => repo_url(repo) + "/commits/"@ + default_branch,
    }
}

/// The counts for the upcoming version and the shown releases, newest first.
pub open spec fn stats_of(
    repo: Repo,
    tags: Seq<TagView>,
    default_branch: Seq<char>,
    tallies: Seq<Tally>,
) -> StatsView {
    StatsView {
        available: true,
        upcoming: Some(
            BucketView {
                count: tallies[0].count,
                url: upcoming_url(repo, name_at(tags, 0), default_branch),
            },
        ),
        releases: Seq::new(
            shown_count(tags),
            |i: int|
                ReleaseRowView {
                    tag: tags[i].name,
                    bucket: BucketView {
                        count: tallies[i + 1].count,
                        url: release_url(repo, tags[i].name),
                    },
                    published_at: tags[i].published_at,
                },
        ),
    }
}

/// Whether the commits of a range name the pull request.
pub open spec fn names(t: Tally, number: i64) -> bool {
    exists|k: int| 0 <= k < t.prs@.len() && #[trigger] t.prs@[k] == number
}

/// The last of the first `n` releases whose range names the pull request, or -1.
pub open spec fn last_with(tallies: Seq<Tally>, number: i64, n: int) -> int
    decreases n,
{
    if n <= 0 {
        -1
    } else if names(tallies[n], number) {
        n - 1
    } else {
        last_with(tallies, number, n - 1)
    }
}

/// The release that shipped a pull request: the earliest of those shown whose
/// range names it, which is the last, as they run newest first.
pub open spec fn shipped_in(
    repo: Repo,
    tags: Seq<TagView>,
    tallies: Seq<Tally>,
    number: i64,
) -> Option<ReleaseView> {
    shipped_among(repo, tags, tallies, number, shown_count(tags) as int)
}

/// The earliest of the first `n` releases whose range names the pull request.
pub open spec fn shipped_among(
    repo: Repo,
    tags: Seq<TagView>,
    tallies: Seq<Tally>,
    number: i64,
    n: int,
) -> Option<ReleaseView> {
    let i = last_with(tallies, number, n);
    if i >= 0 {
        Some(ReleaseView { tag: tags[i].name, url: release_url(repo, tags[i].name) })
    } else {
        None
    }
}

fn url_of(repo: &Repo) -> (r: String)
    ensures
        r@ == repo_url(*repo),
{
    let mut s = "https://github.com/".to_string();
    s.append(repo.owner.as_str());
    s.append("/");
    s.append(repo.name.as_str());
    s
}

/// Put the counts together: my work in the next version and in each shown
/// release, and the earliest of those releases that shipped each pull request.
/// Pull requests merged since the latest release have not shipped.
pub fn assemble(repo: &Repo, tags: &Vec<Tag>, default_branch: &str, tallies: &Vec<Tally>) -> (r: (
    CommitStats,
    ReleaseMap,
))
    requires
        tallies@.len() == shown_count(rows_view(tags@)) + 1,
    ensures
        r.0@ == stats_of(*repo, rows_view(tags@), default_branch@, tallies@),
        forall|number: i64|
            #[trigger] release_in(r.1@, number) == shipped_in(
                *repo,
                rows_view(tags@),
                tallies@,
                number,
            ),
{
    broadcast use vstd::std_specs::hash::group_hash_axioms;

    let ghost tv = rows_view(tags@);
    let mut map: ReleaseMap = HashMap::new();
    let mut up_url = url_of(repo);
    match name_of(tags, 0) {
        Some(latest) => {
            up_url.append("/compare/");
            up_url.append(latest.as_str());
            up_url.append("...");
            up_url.append(default_branch);
        },
        None => {
            up_url.append("/commits/");
            up_url.append(default_branch);
        },
    }
    let upcoming = Some(Bucket { count: tallies[0].count, url: up_url });
    let mut releases: Vec<Release> = Vec::new();
    let mut i: usize = 0;
    let ghost want = stats_of(*repo, tv, default_branch@, tallies@).releases;
    proof {
        assert(rows_view(releases@) =~= want.take(0));
        assert forall|number: i64|
            #[trigger] release_in(map@, number) == shipped_among(
                *repo,
                tv,
                tallies@,
                number,
                0,
            ) by {}
    }
    while i < tags.len() && i < RELEASES
        invariant
            i <= tags@.len(),
            i <= RELEASES,
            tv == rows_view(tags@),
            tallies@.len() == shown_count(tv) + 1,
            want == stats_of(*repo, tv, default_branch@, tallies@).releases,
            rows_view(releases@) == want.take(i as int),
            forall|number: i64|
                #[trigger] release_in(map@, number) == shipped_among(
                    *repo,
                    tv,
                    tallies@,
                    number,
                    i as int,
                ),
        decreases tags@.len() - i,
    {
        let tag = &tags[i];
        assert(tv[i as int] == tag@);
        let mut url = url_of(repo);
        url.append("/releases/tag/");
        url.append(tag.name.as_str());
        let ghost here = ReleaseView { tag: tag.name@, url: url@ };
        let ghost before = map@;
        let prs = &tallies[i + 1].prs;
        let mut k: usize = 0;
        while k < prs.len()
            invariant
                k <= prs@.len(),
                here == (ReleaseView { tag: tag.name@, url: url@ }),
                forall|number: i64|
                    #[trigger] release_in(map@, number) == if exists|j: int|
                        0 <= j < k && #[trigger] prs@[j] == number {
                        Some(here)
                    } else {
                        release_in(before, number)
                    },
            decreases prs@.len() - k,
        {
            let n: i64 = prs[k] as i64;
            let ghost was = map@;
            assert(prs@[k as int] == n);
            let entry = ReleaseRef { tag: tag.name.clone(), url: url.clone() };
            assert(entry@ == here);
            map.insert(n, entry);
            proof {
                assert forall|number: i64| #[trigger]
                    release_in(map@, number) == if exists|j: int|
                        0 <= j < k + 1 && #[trigger] prs@[j] == number {
                        Some(here)
                    } else {
                        release_in(before, number)
                    } by {
                    let old_value = release_in(was, number);
                    if number != n {
                        assert(release_in(map@, number) == old_value);
                        if exists|j: int| 0 <= j < k + 1 && #[trigger] prs@[j] == number {
                            let j = choose|j: int| 0 <= j < k + 1 && #[trigger] prs@[j] == number;
                            assert(j < k);
                        }
                    }
                }
            }
            k += 1;
        }
        proof {
            assert forall|number: i64| #[trigger]
                release_in(map@, number) == shipped_among(
                    *repo,
                    tv,
                    tallies@,
                    number,
                    i + 1,
                ) by {
                assert(tallies@[i + 1].prs@ == prs@);
                assert(release_in(before, number) == shipped_among(
                    *repo,
                    tv,
                    tallies@,
                    number,
                    i as int,
                ));
            }
        }
        let row = Release {
            tag: tag.name.clone(),
            bucket: Bucket { count: tallies[i + 1].count, url },
            published_at: copy_opt(&tag.published_at),
        };
        proof {
            assert(row@ == want[i as int]);
            rows_view_push(releases@, row);
            assert(want.take(i as int).push(row@) =~= want.take(i + 1));
        }
        releases.push(row);
        i += 1;
    }
    proof {
        assert(want.take(i as int) =~= want);
    }
    let stats = CommitStats { available: true, upcoming, releases };
    (stats, map)
}

/// A pull request is listed under the earliest release that includes it: that
/// release's range names it, and no range of an earlier one does. One that no
/// shown range names has not shipped.
pub proof fn the_earliest_release_counts(
    repo: Repo,
    tags: Seq<TagView>,
    tallies: Seq<Tally>,
    number: i64,
)
    ensures
        ({
            let n = shown_count(tags) as int;
            let i = last_with(tallies, number, n);
            if i >= 0 {
                &&& i < n
                &&& names(tallies[i + 1], number)
                &&& forall|j: int| i + 1 < j <= n ==> !names(#[trigger] tallies[j], number)
                &&& shipped_in(repo, tags, tallies, number) matches Some(r) && r.tag
                    == tags[i].name
            } else {
                &&& forall|j: int| 1 <= j <= n ==> !names(#[trigger] tallies[j], number)
                &&& shipped_in(repo, tags, tallies, number) is None
            }
        }),
{
    last_is_last(tallies, number, shown_count(tags) as int);
}

proof fn last_is_last(tallies: Seq<Tally>, number: i64, n: int)
    requires
        n >= 0,
    ensures
        -1 <= last_with(tallies, number, n) < n || (n == 0 && last_with(tallies, number, n) == -1),
        last_with(tallies, number, n) >= 0 ==> names(
            tallies[last_with(tallies, number, n) + 1],
            number,
        ),
        forall|j: int|
            last_with(tallies, number, n) + 1 < j <= n ==> !names(#[trigger] tallies[j], number),
    decreases n,
{
    if n > 0 && !names(tallies[n], number) {
        last_is_last(tallies, number, n - 1);
    }
}

/// A pull request whose commit is only in the upcoming range has not shipped.
pub proof fn unreleased_work_has_not_shipped(
    repo: Repo,
    tags: Seq<TagView>,
    tallies: Seq<Tally>,
    number: i64,
)
    requires
        tallies.len() == shown_count(tags) + 1,
        forall|i: int| 1 <= i < tallies.len() ==> !names(#[trigger] tallies[i], number),
    ensures
        shipped_in(repo, tags, tallies, number) is None,
{
    the_earliest_release_counts(repo, tags, tallies, number);
}

/// A commit subject names the pull request that it ends with in brackets, whatever
/// stands before it.
pub proof fn a_reference_reads_back(before: Seq<char>, n: nat)
    requires
        n <= u32::MAX,
    ensures
        reference(before + seq!['(', '#'] + dec(n) + seq![')']) == Some(n),
{
    let d = dec(n);
    let s = before + seq!['(', '#'] + d + seq![')'];
    crate::text::number_reads_back_decimal(n, u32::MAX as nat);
    assert(s.last() == ')');
    assert(trim_end(s) == s);
    let inner = before + seq!['(', '#'] + d;
    assert(s.drop_last() =~= inner);
    crate::text::written_in_digits(n);
    the_mark_is_before_the_digits(before, d);
    assert(inner.skip(before.len() as int + 2) =~= d);
}

proof fn the_mark_is_before_the_digits(before: Seq<char>, d: Seq<char>)
    requires
        forall|i: int| 0 <= i < d.len() ==> crate::text::is_digit(#[trigger] d[i]),
    ensures
        last_mark(before + seq!['(', '#'] + d) == before.len(),
    decreases d.len(),
{
    let s = before + seq!['(', '#'] + d;
    if d.len() > 0 {
        let e = d.drop_last();
        assert(s.last() == d.last());
        assert(crate::text::is_digit(d[d.len() - 1]));
        assert forall|i: int| 0 <= i < e.len() implies crate::text::is_digit(#[trigger] e[i]) by {
            assert(e[i] == d[i]);
        }
        assert(s.drop_last() =~= before + seq!['(', '#'] + e);
        the_mark_is_before_the_digits(before, e);
    } else {
        assert(s[s.len() - 2] == '(' && s[s.len() - 1] == '#');
    }
}

/// A commit subject that does not end with a closing bracket, but for white space,
/// names no pull request.
pub proof fn a_reference_is_at_the_end(subject: Seq<char>)
    requires
        subject.len() == 0 || (!crate::text::is_white_space(subject.last()) && subject.last()
            != ')'),
    ensures
        reference(subject) is None,
{
}

/// Counting goes commit by commit: a commit counts exactly if its author is `me`,
/// and then the pull request that its first line names is kept.
pub proof fn commits_count_one_by_one(
    a: Seq<CommitNode>,
    b: Seq<CommitNode>,
    c: CommitNode,
    me: Seq<char>,
)
    ensures
        mine_count(a + b, me) == mine_count(a, me) + mine_count(b, me),
        mine_prs(a + b, me) == mine_prs(a, me) + mine_prs(b, me),
        all_prs(a + b) == all_prs(a) + all_prs(b),
        (c.author matches Some(x) && x.login@ == me) ==> mine_count(seq![c], me) == 1 && mine_prs(
            seq![c],
            me,
        ) == all_prs(seq![c]),
        !(c.author matches Some(x) && x.login@ == me) ==> mine_count(seq![c], me) == 0 && mine_prs(
            seq![c],
            me,
        ) == Seq::<nat>::empty(),
        all_prs(seq![c]) == match reference(first_line(c.commit.message@)) {
            Some(n) => seq![n],
            None => Seq::empty(),
        },
    decreases b.len(),
{
    reveal_with_fuel(mine_count, 2);
    reveal_with_fuel(mine_prs, 2);
    reveal_with_fuel(all_prs, 2);
    let none = Seq::<nat>::empty();
    assert(seq![c].drop_last() =~= Seq::<CommitNode>::empty());
    if let Some(n) = commit_reference(c) {
        assert(none.push(n) =~= seq![n]);
    }
    if b.len() == 0 {
        assert(a + b =~= a);
        assert(mine_prs(a, me) + none =~= mine_prs(a, me));
        assert(all_prs(a) + none =~= all_prs(a));
    } else {
        let t = b.drop_last();
        assert((a + b).drop_last() =~= a + t);
        commits_count_one_by_one(a, t, c, me);
        if let Some(n) = commit_reference(b.last()) {
            assert((mine_prs(a, me) + mine_prs(t, me)).push(n) =~= mine_prs(a, me) + mine_prs(
                t,
                me,
            ).push(n));
            assert((all_prs(a) + all_prs(t)).push(n) =~= all_prs(a) + all_prs(t).push(n));
        }
    }
}

/// Releases are listed one by one and in their order: a draft never is, and a
/// pre-release exactly if they are wanted.
pub proof fn releases_are_listed_one_by_one(
    a: Seq<ReleaseInfo>,
    b: Seq<ReleaseInfo>,
    r: ReleaseInfo,
    pre: bool,
)
    ensures
        shown(a + b, pre) == shown(a, pre) + shown(b, pre),
        shown(seq![r], pre) == if r.draft || (r.prerelease && !pre) {
            Seq::empty()
        } else {
            seq![TagView { name: r.tag_name@, published_at: opt_view(r.published_at) }]
        },
    decreases b.len(),
{
    reveal_with_fuel(shown, 2);
    let none = Seq::<TagView>::empty();
    let tag = TagView { name: r.tag_name@, published_at: opt_view(r.published_at) };
    assert(seq![r].drop_last() =~= Seq::<ReleaseInfo>::empty());
    assert(none.push(tag) =~= seq![tag]);
    if b.len() == 0 {
        assert(a + b =~= a);
        assert(shown(a, pre) + none =~= shown(a, pre));
    } else {
        let t = b.drop_last();
        let x = b.last();
        let last = TagView { name: x.tag_name@, published_at: opt_view(x.published_at) };
        assert((a + b).drop_last() =~= a + t);
        releases_are_listed_one_by_one(a, t, r, pre);
        assert((shown(a, pre) + shown(t, pre)).push(last) =~= shown(a, pre) + shown(t, pre).push(
            last,
        ));
    }
}

/// The ranges meet end to end, from the default branch back: each begins where the
/// next one ends, and only the last one can lack a beginning, where there is no
/// older tag. There are as many as releases are shown, four at most, and one more.
pub proof fn the_ranges_meet(tags: Seq<TagView>, default_branch: Seq<char>, i: int)
    requires
        0 <= i < ranges_of(tags, default_branch).len(),
    ensures
        ({
            let r = ranges_of(tags, default_branch);
            &&& r.len() == 1 + if tags.len() < 4 {
                tags.len() as int
            } else {
                4
            }
            &&& r[0].head == default_branch
            &&& i + 1 < r.len() ==> r[i].base == Some(r[i + 1].head)
            &&& i > 0 ==> r[i].head == tags[i - 1].name
            &&& i < tags.len() ==> r[i].base == Some(tags[i].name)
            &&& i >= tags.len() ==> r[i].base is None
        }),
{
}

/// Each count is of the range that it stands beside: that of a release is of the
/// range that ends in its tag, and that of the upcoming version of the range that
/// ends in the default branch.
pub proof fn a_count_is_of_its_range(
    repo: Repo,
    tags: Seq<TagView>,
    default_branch: Seq<char>,
    tallies: Seq<Tally>,
    i: int,
)
    requires
        tallies.len() == ranges_of(tags, default_branch).len(),
        0 <= i < stats_of(repo, tags, default_branch, tallies).releases.len(),
    ensures
        ({
            let s = stats_of(repo, tags, default_branch, tallies);
            let r = ranges_of(tags, default_branch);
            &&& s.available
            &&& s.releases.len() + 1 == r.len()
            &&& s.upcoming matches Some(b) && b.count == tallies[0].count
            &&& s.releases[i].tag == r[i + 1].head
            &&& s.releases[i].bucket.count == tallies[i + 1].count
            &&& s.releases[i].bucket.url == "https://github.com/"@ + repo.owner@ + "/"@ + repo.name@
                + "/releases/tag/"@ + s.releases[i].tag
            &&& s.releases[i].published_at == tags[i].published_at
        }),
{
}

/// What a page of releases adds: its releases that are no drafts, and no
/// pre-releases unless they are wanted, in their order. The search goes on while
/// there are not enough tags, the page was full, and there are pages left.
pub proof fn a_page_adds_its_releases(
    p: &mut ReleasePager,
    releases: &Vec<ReleaseInfo>,
    pre: bool,
    i: int,
)
    requires
        call_ensures(ReleasePager::accept, (p, releases, pre), ()),
        0 <= i < releases@.len(),
    ensures
        final(p).tags@.len() >= old(p).tags@.len(),
        releases@[i].draft || (releases@[i].prerelease && !pre) || exists|k: int|
            old(p).tags@.len() <= k < final(p).tags@.len() && (#[trigger] final(p).tags@[k]).name@
                == releases@[i].tag_name@,
        final(p).tags@.len() > 4 ==> final(p).done,
        releases@.len() < 50 ==> final(p).done,
        final(p).done ==> final(p).tags@.len() > 4 || releases@.len() < 50 || old(p).page == 20,
{
    let more = shown(releases@, pre);
    let tags = rows_view(final(p).tags@);
    let before = rows_view(old(p).tags@);
    assert(tags == before + more);
    assert(tags.len() == final(p).tags@.len() && before.len() == old(p).tags@.len());
    let r = releases@[i];
    if !(r.draft || (r.prerelease && !pre)) {
        let a = releases@.take(i);
        let b = releases@.skip(i + 1);
        assert(releases@ =~= (a + seq![r]) + b);
        releases_are_listed_one_by_one(a + seq![r], b, r, pre);
        releases_are_listed_one_by_one(a, seq![r], r, pre);
        let k = before.len() + shown(a, pre).len();
        assert(tags[k as int].name == r.tag_name@);
        assert(tags[k as int] == final(p).tags@[k as int]@);
    }
}

/// What a page of commits adds: each of its commits once. The count is final at
/// the first page that is not full, and a lower bound only after the last page that
/// is looked at.
pub proof fn a_page_adds_its_commits(p: &mut CommitPager, nodes: &Vec<CommitNode>)
    requires
        call_ensures(CommitPager::accept, (p, nodes), ()),
    ensures
        final(p).mine == old(p).mine + nodes@.len(),
        final(p).count is Some <==> nodes@.len() < 100 || old(p).page == 5,
        final(p).count matches Some(c) ==> c.mine == final(p).mine && (c.capped <==> nodes@.len()
            >= 100),
{
}

/// What the answers come to for a pull request: it is listed under the earliest
/// shown release whose range names it, and under none if no shown range does.
pub proof fn an_assembled_map_has_the_earliest_release(
    repo: &Repo,
    tags: &Vec<Tag>,
    default_branch: &str,
    tallies: &Vec<Tally>,
    r: (CommitStats, ReleaseMap),
    number: i64,
    i: int,
)
    requires
        call_ensures(assemble, (repo, tags, default_branch, tallies), r),
        0 <= i < tags@.len(),
        i < 4,
        tallies@.len() == 1 + if tags@.len() < 4 {
            tags@.len() as int
        } else {
            4
        },
        exists|k: int|
            0 <= k < tallies@[i + 1].prs@.len() && #[trigger] tallies@[i + 1].prs@[k] == number,
        forall|j: int, k: int|
            #![trigger tallies@[j].prs@[k]]
            i + 1 < j < tallies@.len() && 0 <= k < tallies@[j].prs@.len() ==> tallies@[j].prs@[k]
                != number,
    ensures
        r.1@.contains_key(number),
        r.1@[number].tag@ == tags@[i].name@,
{
    let tv = rows_view(tags@);
    let n = shown_count(tv) as int;
    assert(tv.len() == tags@.len());
    the_earliest_release_counts(*repo, tv, tallies@, number);
    let at = last_with(tallies@, number, n);
    assert(names(tallies@[i + 1], number));
    assert(0 <= i < n);
    if at < i {
        assert(!names(tallies@[i + 1], number));
    }
    if at > i {
        assert(names(tallies@[at + 1], number));
        let k = choose|k: int|
            0 <= k < tallies@[at + 1].prs@.len() && #[trigger] tallies@[at + 1].prs@[k] == number;
        assert(tallies@[at + 1].prs@[k] != number);
    }
    assert(at == i);
    assert(release_in(r.1@, number) == shipped_in(*repo, tv, tallies@, number));
    assert(tv[i] == tags@[i]@);
    assert(r.1@[number]@.tag == r.1@[number].tag@);
}

/// What counting gives: my commits, and the pull requests that they name; the
/// count is a lower bound exactly if the range is larger than what was fetched.
pub proof fn my_commits_are_counted(
    commits: &[CommitNode],
    total: usize,
    me: &str,
    r: (Count, Vec<u32>),
)
    requires
        call_ensures(mine_in, (commits, total, me), r),
    ensures
        r.0.capped <==> total > commits@.len(),
        (forall|i: int|
            0 <= i < commits@.len() ==> ((#[trigger] commits@[i]).author matches Some(a)
                && a.login@ == me@)) ==> r.0.mine == commits@.len(),
        (forall|i: int|
            0 <= i < commits@.len() ==> !((#[trigger] commits@[i]).author matches Some(a)
                && a.login@ == me@)) ==> r.0.mine == 0 && r.1@.len() == 0,
{
    all_or_none_are_mine(commits@, me@);
    assert(nats(r.1@).len() == r.1@.len());
}

proof fn all_or_none_are_mine(commits: Seq<CommitNode>, me: Seq<char>)
    ensures
        (forall|i: int| 0 <= i < commits.len() ==> is_mine(#[trigger] commits[i], me))
            ==> mine_count(commits, me) == commits.len(),
        (forall|i: int| 0 <= i < commits.len() ==> !is_mine(#[trigger] commits[i], me))
            ==> mine_count(commits, me) == 0 && mine_prs(commits, me).len() == 0,
    decreases commits.len(),
{
    if commits.len() > 0 {
        let t = commits.drop_last();
        all_or_none_are_mine(t, me);
        let last = commits.len() - 1;
        assert(commits[last] == commits.last());
        if forall|i: int| 0 <= i < commits.len() ==> is_mine(#[trigger] commits[i], me) {
            assert forall|i: int| 0 <= i < t.len() implies is_mine(#[trigger] t[i], me) by {
                assert(t[i] == commits[i]);
            }
        }
        if forall|i: int| 0 <= i < commits.len() ==> !is_mine(#[trigger] commits[i], me) {
            assert forall|i: int| 0 <= i < t.len() implies !is_mine(#[trigger] t[i], me) by {
                assert(t[i] == commits[i]);
            }
        }
    }
}

} // verus!
