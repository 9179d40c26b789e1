//! The reviews view: open pull requests that await my review or had it, and
//! merged ones that I reviewed.

use crate::canvas::{ellipsized, truncate};
use crate::merged::capped;
use crate::model::{login, login_of, MergedNode, MyReview, ReviewPrNode, ReviewsData};
use crate::order::{
    rows_view, rows_view_push, sort_rows, sorting_keeps_the_rows, stable_sort, stable_sort_sorts,
    Ranked,
};
use crate::queue::AUTHOR_WIDTH;
use crate::render::{
    cell_of, cells_view, char_text, grid_view, grid_view_push, pr_cell, Cell, CellView, Table,
    TableView,
};
use crate::status::{
    self, in_color, in_faint, review_palette, review_sign, sign, unstyled, ReviewState, Status,
    Style, BLUE, MAUVE,
};
use crate::text::{
    compare_int, compare_latest, compare_opt, compare_text, copy_opt, opt_view, rank_int,
    rank_latest, rank_latest_is_an_order, rank_opt, rank_opt_is_an_order, rank_text,
    rank_text_is_an_order, Rank,
};
use crate::timefmt::{age_at, age_seen, Timestamp};
use std::collections::HashSet;
use vstd::prelude::*;

verus! {

/// An open pull request that I review.
#[derive(Debug, PartialEq, Eq)]
pub struct ReviewRow {
    pub number: i64,
    pub is_draft: bool,
    pub title: String,
    pub author: String,
    pub url: String,
    pub state: ReviewState,
    pub updated_at: Option<String>,
}

/// What a row of the open reviews says.
pub struct ReviewRowView {
    pub number: i64,
    pub is_draft: bool,
    pub title: Seq<char>,
    pub author: Seq<char>,
    pub url: Seq<char>,
    pub state: ReviewState,
    pub updated_at: Option<Seq<char>>,
}

impl View for ReviewRow {
    type V = ReviewRowView;

    open spec fn view(&self) -> ReviewRowView {
        ReviewRowView {
            number: self.number,
            is_draft: self.is_draft,
            title: self.title@,
            author: self.author@,
            url: self.url@,
            state: self.state,
            updated_at: opt_view(self.updated_at),
        }
    }
}

impl Clone for ReviewRow {
    fn clone(&self) -> (r: Self)
        ensures
            r@ == self@,
    {
        ReviewRow {
            number: self.number,
            is_draft: self.is_draft,
            title: self.title.clone(),
            author: self.author.clone(),
            url: self.url.clone(),
            state: self.state,
            updated_at: copy_opt(&self.updated_at),
        }
    }
}

/// The place of a review state in the order of what to act on first.
pub open spec fn urgency(s: ReviewState) -> int {
    match s {
        ReviewState::Awaiting => 0,
        ReviewState::ReReview => 1,
        ReviewState::Updated => 2,
        ReviewState::Reviewed => 3,
    }
}

/// Rows sort by state as the legend lists the states.
pub proof fn states_sort_as_the_legend_lists_them(s: ReviewState)
    ensures
        0 <= urgency(s) < 4,
        status::REVIEW_ORDER[urgency(s)] == s,
{
}

fn rank_state(s: ReviewState) -> (r: i64)
    ensures
        r == urgency(s),
{
    match s {
        ReviewState::Awaiting => 0,
        ReviewState::ReReview => 1,
        ReviewState::Updated => 2,
        ReviewState::Reviewed => 3,
    }
}

/// Rows sort by state, the most actionable first, then by update time, the most
/// recent first, then by number, the highest first.
impl Ranked for ReviewRow {
    open spec fn rank(a: ReviewRowView, b: ReviewRowView) -> Rank {
        rank_int(urgency(a.state), urgency(b.state)).or(
            rank_latest(a.updated_at, a.number, b.updated_at, b.number),
        )
    }

    proof fn rank_is_an_order(a: ReviewRowView, b: ReviewRowView, c: ReviewRowView) {
        rank_latest_is_an_order(
            a.updated_at,
            a.number,
            b.updated_at,
            b.number,
            c.updated_at,
            c.number,
        );
    }

    fn compare(&self, other: &Self) -> (r: Rank) {
        match compare_int(rank_state(self.state), rank_state(other.state)) {
            Rank::Equal => compare_latest(
                &self.updated_at,
                self.number,
                &other.updated_at,
                other.number,
            ),
            r => r,
        }
    }
}

/// The latest of my reviews; an undated review counts as before any dated one.
pub open spec fn latest(reviews: Seq<MyReview>) -> Option<Seq<char>>
    decreases reviews.len(),
{
    if reviews.len() == 0 {
        None
    } else {
        let before = latest(reviews.drop_last());
        let last = opt_view(reviews.last().submitted_at);
        if rank_opt(before, last) == Rank::After {
            before
        } else {
            last
        }
    }
}

/// Whether a commit came after a review. Both are timestamps of the form `...Z`,
/// so they compare as text.
pub open spec fn came_after(commit: Option<Seq<char>>, review: Option<Seq<char>>) -> bool {
    match (commit, review) {
        (Some(c), Some(r)) => rank_text(c, r) == Rank::After,
        _ => false,
    }
}

/// When the last commit was made.
pub open spec fn committed(n: ReviewPrNode) -> Option<Seq<char>> {
    if n.commits.nodes@.len() > 0 {
        opt_view(n.commits.nodes@[0].commit.committed_date)
    } else {
        None
    }
}

/// The review state of a pull request: what it requests of me, what I reviewed,
/// and, where I reviewed, whether it moved since.
pub open spec fn state_of(requested: bool, n: ReviewPrNode) -> ReviewState {
    let reviewed = n.reviews.nodes@.len() > 0;
    if requested && reviewed {
        ReviewState::ReReview
    } else if requested {
        ReviewState::Awaiting
    } else if reviewed && came_after(committed(n), latest(n.reviews.nodes@)) {
        ReviewState::Updated
    } else {
        ReviewState::Reviewed
    }
}

fn updated_since(last_commit: &Option<String>, my_last_review: &Option<String>) -> (r: bool)
    ensures
        r == came_after(opt_view(*last_commit), opt_view(*my_last_review)),
{
    match (last_commit, my_last_review) {
        (Some(c), Some(r)) => compare_text(c.as_str(), r.as_str()) == Rank::After,
        _ => false,
    }
}

fn last_review(reviews: &Vec<MyReview>) -> (r: Option<String>)
    ensures
        opt_view(r) == latest(reviews@),
{
    let mut best: Option<String> = None;
    let mut i: usize = 0;
    proof {
        assert(reviews@.take(0) =~= Seq::empty());
    }
    while i < reviews.len()
        invariant
            i <= reviews@.len(),
            opt_view(best) == latest(reviews@.take(i as int)),
        decreases reviews@.len() - i,
    {
        proof {
            assert(reviews@.take(i + 1).drop_last() =~= reviews@.take(i as int));
        }
        if compare_opt(&best, &reviews[i].submitted_at) != Rank::After {
            best = copy_opt(&reviews[i].submitted_at);
        }
        i += 1;
    }
    proof {
        assert(reviews@.take(i as int) =~= reviews@);
    }
    best
}

/// Derive the review state of a pull request.
pub fn review_state(requested: bool, node: &ReviewPrNode) -> (r: ReviewState)
    ensures
        r == state_of(requested, *node),
{
    let has_my_review = node.reviews.nodes.len() > 0;
    match (requested, has_my_review) {
        (true, true) => ReviewState::ReReview,
        (true, false) => ReviewState::Awaiting,
        (false, true) => {
            let last_commit = if node.commits.nodes.len() > 0 {
                copy_opt(&node.commits.nodes[0].commit.committed_date)
            } else {
                None
            };
            let my_last_review = last_review(&node.reviews.nodes);
            if updated_since(&last_commit, &my_last_review) {
                ReviewState::Updated
            } else {
                ReviewState::Reviewed
            }
        },
        (false, false) => ReviewState::Reviewed,
    }
}

/// Whether a pull request is among the nodes.
pub open spec fn numbered(s: Seq<ReviewPrNode>, number: i64) -> bool {
    exists|i: int| 0 <= i < s.len() && (#[trigger] s[i]).number == number
}

/// The row of a pull request.
pub open spec fn row_of(n: ReviewPrNode, requested: bool) -> ReviewRowView {
    ReviewRowView {
        number: n.number,
        is_draft: n.is_draft,
        title: n.title@,
        author: login_of(n.author),
        url: n.url@,
        state: state_of(requested, n),
        updated_at: opt_view(n.updated_at),
    }
}

/// One row for each pull request, from the first node that has its number. Those
/// among `requested` currently ask for my review.
pub open spec fn rows_of(
    nodes: Seq<ReviewPrNode>,
    requested: Seq<ReviewPrNode>,
) -> Seq<ReviewRowView>
    decreases nodes.len(),
{
    if nodes.len() == 0 {
        Seq::empty()
    } else {
        let rest = rows_of(nodes.drop_last(), requested);
        let n = nodes.last();
        if numbered(nodes.drop_last(), n.number) {
            rest
        } else {
            rest.push(row_of(n, numbered(requested, n.number)))
        }
    }
}

/// The rows of the two searches, in display order.
pub open spec fn open_rows(data: ReviewsData) -> Seq<ReviewRowView> {
    stable_sort::<ReviewRow>(
        rows_of(data.requested.nodes@ + data.reviewed.nodes@, data.requested.nodes@),
    )
}

fn add_row(
    rows: &mut Vec<ReviewRow>,
    seen: &mut HashSet<i64>,
    n: &ReviewPrNode,
    wanted: bool,
    Ghost(before): Ghost<Seq<ReviewPrNode>>,
    Ghost(requested): Ghost<Seq<ReviewPrNode>>,
)
    requires
        rows_view(old(rows)@) == rows_of(before, requested),
        forall|k: i64| #[trigger] old(seen)@.contains(k) <==> numbered(before, k),
        !numbered(before, n.number) ==> wanted == numbered(requested, n.number),
    ensures
        rows_view(final(rows)@) == rows_of(before.push(*n), requested),
        forall|k: i64| #[trigger] final(seen)@.contains(k) <==> numbered(before.push(*n), k),
{
    let ghost after = before.push(*n);
    proof {
        assert(after.drop_last() =~= before);
        assert forall|k: i64| numbered(after, k) <==> numbered(before, k) || k == n.number by {
            if numbered(before, k) {
                let i = choose|i: int| 0 <= i < before.len() && (#[trigger] before[i]).number == k;
                assert(after[i].number == k);
            }
            assert(after[before.len() as int].number == n.number);
            if numbered(after, k) && k != n.number {
                let i = choose|i: int| 0 <= i < after.len() && (#[trigger] after[i]).number == k;
                assert(before[i].number == k);
            }
        }
    }
    if !seen.contains(&n.number) {
        let row = ReviewRow {
            number: n.number,
            is_draft: n.is_draft,
            title: n.title.clone(),
            author: login(&n.author),
            url: n.url.clone(),
            state: review_state(wanted, n),
            updated_at: copy_opt(&n.updated_at),
        };
        proof {
            rows_view_push(rows@, row);
        }
        rows.push(row);
    }
    seen.insert(n.number);
}

/// Build the rows of the open reviews from the two searches, one for each pull
/// request though it may be in both. Sorted by state, then by last update.
pub fn build_open_rows(data: ReviewsData) -> (r: Vec<ReviewRow>)
    ensures
        rows_view(r@) == open_rows(data),
{
    let mut rows: Vec<ReviewRow> = Vec::new();
    let mut seen: HashSet<i64> = HashSet::new();
    let ghost requested = data.requested.nodes@;
    let ghost all = data.requested.nodes@ + data.reviewed.nodes@;
    let mut i: usize = 0;
    proof {
        assert(rows_view(rows@) =~= rows_of(all.take(0), requested));
    }
    while i < data.requested.nodes.len()
        invariant
            i <= data.requested.nodes@.len(),
            requested == data.requested.nodes@,
            all == data.requested.nodes@ + data.reviewed.nodes@,
            rows_view(rows@) == rows_of(all.take(i as int), requested),
            forall|k: i64| #[trigger] seen@.contains(k) <==> numbered(all.take(i as int), k),
        decreases data.requested.nodes@.len() - i,
    {
        let n = &data.requested.nodes[i];
        proof {
            assert(all.take(i + 1) =~= all.take(i as int).push(*n));
            assert(requested[i as int].number == n.number);
        }
        add_row(&mut rows, &mut seen, n, true, Ghost(all.take(i as int)), Ghost(requested));
        i += 1;
    }
    let mut j: usize = 0;
    proof {
        assert(all.take(i as int) =~= requested);
    }
    while j < data.reviewed.nodes.len()
        invariant
            j <= data.reviewed.nodes@.len(),
            i == requested.len(),
            requested == data.requested.nodes@,
            all == data.requested.nodes@ + data.reviewed.nodes@,
            rows_view(rows@) == rows_of(all.take(i + j), requested),
            forall|k: i64| #[trigger] seen@.contains(k) <==> numbered(all.take(i + j), k),
        decreases data.reviewed.nodes@.len() - j,
    {
        let n = &data.reviewed.nodes[j];
        proof {
            let before = all.take(i + j);
            assert(all.take(i + j + 1) =~= before.push(*n));
            if numbered(requested, n.number) {
                let k = choose|k: int|
                    0 <= k < requested.len() && (#[trigger] requested[k]).number == n.number;
                assert(before[k].number == n.number);
            }
        }
        add_row(&mut rows, &mut seen, n, false, Ghost(all.take(i + j)), Ghost(requested));
        j += 1;
    }
    proof {
        assert(all.take(i + j) =~= all);
    }
    sort_rows(rows)
}

/// Whether a pull request has a row.
pub open spec fn has_row(rows: Seq<ReviewRowView>, number: i64) -> bool {
    exists|i: int| 0 <= i < rows.len() && (#[trigger] rows[i]).number == number
}

/// Before sorting there is exactly one row for each pull request of the nodes.
pub proof fn one_row_for_each_pull_request(
    nodes: Seq<ReviewPrNode>,
    requested: Seq<ReviewPrNode>,
)
    ensures
        forall|k: i64|
            #[trigger] has_row(rows_of(nodes, requested), k) <==> numbered(nodes, k),
        forall|i: int, j: int|
            0 <= i < j < rows_of(nodes, requested).len() ==> (#[trigger] rows_of(
                nodes,
                requested,
            )[i]).number != (#[trigger] rows_of(nodes, requested)[j]).number,
    decreases nodes.len(),
{
    let rows = rows_of(nodes, requested);
    if nodes.len() > 0 {
        let t = nodes.drop_last();
        let u = rows_of(t, requested);
        let n = nodes.last();
        one_row_for_each_pull_request(t, requested);
        assert forall|k: i64| #[trigger] has_row(rows, k) <==> numbered(nodes, k) by {
            assert(has_row(u, k) <==> numbered(t, k));
            if numbered(t, k) {
                let i = choose|i: int| 0 <= i < t.len() && (#[trigger] t[i]).number == k;
                assert(nodes[i].number == k);
            }
            assert(nodes[t.len() as int].number == n.number);
            if numbered(nodes, k) && k != n.number {
                let i = choose|i: int| 0 <= i < nodes.len() && (#[trigger] nodes[i]).number == k;
                assert(t[i].number == k);
            }
            if has_row(u, k) {
                let i = choose|i: int| 0 <= i < u.len() && (#[trigger] u[i]).number == k;
                assert(rows[i].number == k);
            }
            if !numbered(t, n.number) {
                assert(rows[u.len() as int].number == n.number);
            }
            if has_row(rows, k) && k != n.number {
                let i = choose|i: int| 0 <= i < rows.len() && (#[trigger] rows[i]).number == k;
                assert(u[i].number == k);
            }
        }
        if !numbered(t, n.number) {
            assert(!has_row(u, n.number));
            assert forall|i: int, j: int| 0 <= i < j < rows.len() implies (
            #[trigger] rows[i]).number != (#[trigger] rows[j]).number by {
                assert(u[i].number != n.number);
                if j < u.len() {
                    assert(u[i].number != u[j].number);
                }
            }
        }
    }
}

/// Two rows tie only when they are of the same pull request. With one row for
/// each, the display order is the same whatever order the rows came in.
pub proof fn rows_of_two_pull_requests_never_tie(a: ReviewRowView, b: ReviewRowView)
    requires
        a.number != b.number,
    ensures
        ReviewRow::rank(a, b) != Rank::Equal,
{
    rank_latest_is_an_order(a.updated_at, a.number, b.updated_at, b.number, None, 0);
}

/// The rows that are not drafts.
pub open spec fn undrafted(s: Seq<ReviewRowView>) -> Seq<ReviewRowView>
    decreases s.len(),
{
    if s.len() == 0 {
        s
    } else if !s.last().is_draft {
        undrafted(s.drop_last()).push(s.last())
    } else {
        undrafted(s.drop_last())
    }
}

/// Drop the drafts.
pub fn without_drafts(rows: Vec<ReviewRow>) -> (r: Vec<ReviewRow>)
    ensures
        rows_view(r@) == undrafted(rows_view(rows@)),
{
    let mut out: Vec<ReviewRow> = Vec::new();
    let ghost all = rows_view(rows@);
    let mut i: usize = 0;
    proof {
        assert(all.take(0) =~= rows_view(out@));
    }
    while i < rows.len()
        invariant
            i <= rows@.len(),
            all == rows_view(rows@),
            rows_view(out@) == undrafted(all.take(i as int)),
        decreases rows@.len() - i,
    {
        proof {
            assert(all.take(i + 1).drop_last() =~= all.take(i as int));
        }
        if !rows[i].is_draft {
            let row = rows[i].clone();
            proof {
                rows_view_push(out@, row);
            }
            out.push(row);
        }
        i += 1;
    }
    proof {
        assert(all.take(i as int) =~= all);
    }
    out
}

/// A merged pull request that I reviewed.
#[derive(Debug, PartialEq, Eq)]
pub struct ReviewedMergedRow {
    pub number: i64,
    pub title: String,
    pub author: String,
    pub url: String,
    pub merged_at: Option<String>,
}

/// What a row of the reviewed and merged pull requests says.
pub struct ReviewedMergedView {
    pub number: i64,
    pub title: Seq<char>,
    pub author: Seq<char>,
    pub url: Seq<char>,
    pub merged_at: Option<Seq<char>>,
}

impl View for ReviewedMergedRow {
    type V = ReviewedMergedView;

    open spec fn view(&self) -> ReviewedMergedView {
        ReviewedMergedView {
            number: self.number,
            title: self.title@,
            author: self.author@,
            url: self.url@,
            merged_at: opt_view(self.merged_at),
        }
    }
}

impl Clone for ReviewedMergedRow {
    fn clone(&self) -> (r: Self)
        ensures
            r@ == self@,
    {
        ReviewedMergedRow {
            number: self.number,
            title: self.title.clone(),
            author: self.author.clone(),
            url: self.url.clone(),
            merged_at: copy_opt(&self.merged_at),
        }
    }
}

/// Rows sort by merge time, the most recent first, then by number, the highest
/// first.
impl Ranked for ReviewedMergedRow {
    open spec fn rank(a: ReviewedMergedView, b: ReviewedMergedView) -> Rank {
        rank_latest(a.merged_at, a.number, b.merged_at, b.number)
    }

    proof fn rank_is_an_order(
        a: ReviewedMergedView,
        b: ReviewedMergedView,
        c: ReviewedMergedView,
    ) {
        rank_latest_is_an_order(
            a.merged_at,
            a.number,
            b.merged_at,
            b.number,
            c.merged_at,
            c.number,
        );
    }

    fn compare(&self, other: &Self) -> (r: Rank) {
        compare_latest(&self.merged_at, self.number, &other.merged_at, other.number)
    }
}

/// The row of a merged pull request.
pub open spec fn merged_row_of(n: MergedNode) -> ReviewedMergedView {
    ReviewedMergedView {
        number: n.number,
        title: n.title@,
        author: login_of(n.author),
        url: n.url@,
        merged_at: opt_view(n.merged_at),
    }
}

/// The rows of merged pull requests, in the order they come.
pub open spec fn merged_rows_of(nodes: Seq<MergedNode>) -> Seq<ReviewedMergedView> {
    Seq::new(nodes.len(), |i: int| merged_row_of(nodes[i]))
}

/// Build the rows of the reviewed and merged pull requests, the most recently
/// merged first, and keep the first `limit`.
pub fn build_merged_rows(nodes: Vec<MergedNode>, limit: usize) -> (r: Vec<ReviewedMergedRow>)
    ensures
        rows_view(r@) == capped(
            stable_sort::<ReviewedMergedRow>(merged_rows_of(nodes@)),
            limit as nat,
        ),
{
    let mut rows: Vec<ReviewedMergedRow> = Vec::new();
    let mut i: usize = 0;
    while i < nodes.len()
        invariant
            i <= nodes@.len(),
            rows_view(rows@) =~= merged_rows_of(nodes@).take(i as int),
        decreases nodes@.len() - i,
    {
        let n = &nodes[i];
        let row = ReviewedMergedRow {
            number: n.number,
            title: n.title.clone(),
            author: login(&n.author),
            url: n.url.clone(),
            merged_at: copy_opt(&n.merged_at),
        };
        proof {
            assert(row@ == merged_row_of(nodes@[i as int]));
            rows_view_push(rows@, row);
        }
        rows.push(row);
        i += 1;
    }
    proof {
        assert(rows_view(rows@) =~= merged_rows_of(nodes@));
    }
    let mut sorted = sort_rows(rows);
    let ghost all = rows_view(sorted@);
    sorted.truncate(limit);
    proof {
        assert(rows_view(sorted@) =~= capped(all, limit as nat));
    }
    sorted
}


/// The cells of an open review's row.
pub open spec fn cells_of_row(r: ReviewRowView, ascii: bool, now: Timestamp) -> Seq<CellView> {
    seq![
        cell_of(" "@, unstyled()),
        cell_of(seq![review_sign(r.state, ascii)], in_color(review_palette(r.state).1)),
        pr_cell(
            r.number,
            r.url,
            if r.is_draft {
                in_faint()
            } else {
                in_color(BLUE)
            },
        ),
        cell_of(r.title, unstyled()),
        cell_of(ellipsized(r.author, 16, ascii), in_faint()),
        cell_of(age_seen(now, r.updated_at), in_faint()),
    ]
}

/// The table of the open reviews, as seen from a point in time. A blank first
/// column lines it up with the rest of the dashboard.
pub open spec fn open_table_of(rows: Seq<ReviewRowView>, ascii: bool, now: Timestamp) -> TableView {
    TableView {
        header: seq![""@, ""@, "PR"@, "TITLE"@, "AUTHOR"@, "UPDATED"@],
        rows: Seq::new(rows.len(), |i: int| cells_of_row(rows[i], ascii, now)),
    }
}

fn row_cells(r: &ReviewRow, ascii: bool, now: Timestamp) -> (out: Vec<Cell>)
    requires
        now.valid(),
    ensures
        cells_view(out@) == cells_of_row(r@, ascii, now),
{
    let dim = Style::new().dimmed();
    let glyph = char_text(status::review_glyph(r.state, ascii));
    let author = truncate(r.author.as_str(), AUTHOR_WIDTH, ascii);
    let updated = age_at(now, &r.updated_at);
    let mut out: Vec<Cell> = Vec::new();
    out.push(Cell::plain(" "));
    out.push(Cell::styled(glyph.as_str(), status::fg(status::review_style(r.state).1)));
    let pr_style = if r.is_draft {
        dim
    } else {
        status::fg(BLUE)
    };
    out.push(Cell::pr(r.number, r.url.as_str(), pr_style));
    out.push(Cell::plain(r.title.as_str()));
    out.push(Cell::styled(author.as_str(), dim));
    out.push(Cell::styled(updated.as_str(), dim));
    proof {
        assert(cells_view(out@) =~= cells_of_row(r@, ascii, now));
    }
    out
}

/// The table of the open reviews, as seen from `now`.
pub fn open_to_table_at(rows: &[ReviewRow], ascii: bool, now: Timestamp) -> (r: Table)
    requires
        now.valid(),
    ensures
        r@ == open_table_of(rows_view(rows@), ascii, now),
        r@.wf(),
        r.rows@.len() == rows@.len(),
{
    let mut out: Vec<Vec<Cell>> = Vec::new();
    let ghost want = open_table_of(rows_view(rows@), ascii, now);
    let mut i: usize = 0;
    while i < rows.len()
        invariant
            i <= rows@.len(),
            now.valid(),
            want == open_table_of(rows_view(rows@), ascii, now),
            grid_view(out@) =~= want.rows.take(i as int),
        decreases rows@.len() - i,
    {
        let cells = row_cells(&rows[i], ascii, now);
        proof {
            grid_view_push(out@, cells);
        }
        out.push(cells);
        i += 1;
    }
    let t = Table { header: vec!["", "", "PR", "TITLE", "AUTHOR", "UPDATED"], rows: out };
    proof {
        assert(t@.header =~= want.header);
        assert(t@.rows =~= grid_view(out@));
        assert(t@.rows =~= want.rows);
    }
    t
}

/// The table of the open reviews, as seen from the current time.
pub fn open_to_table(rows: &[ReviewRow], ascii: bool) -> (r: Table)
    ensures
        exists|now: Timestamp|
            crate::timefmt::clock_reading(now) && now.valid() && r@ == #[trigger] open_table_of(rows_view(rows@), ascii, now),
        r@.wf(),
{
    let now = crate::timefmt::now();
    open_to_table_at(rows, ascii, now)
}

/// The cells of a reviewed and merged pull request's row.
pub open spec fn merged_cells_of_row(
    r: ReviewedMergedView,
    ascii: bool,
    now: Timestamp,
) -> Seq<CellView> {
    seq![
        cell_of(" "@, unstyled()),
        cell_of(seq![sign(Status::Merged, ascii)], in_color(MAUVE)),
        pr_cell(r.number, r.url, in_color(BLUE)),
        cell_of(r.title, unstyled()),
        cell_of(ellipsized(r.author, 16, ascii), in_faint()),
        cell_of(age_seen(now, r.merged_at), in_faint()),
    ]
}

/// The table of the reviewed and merged pull requests, as seen from a point in
/// time.
pub open spec fn merged_table_of(
    rows: Seq<ReviewedMergedView>,
    ascii: bool,
    now: Timestamp,
) -> TableView {
    TableView {
        header: seq![""@, ""@, "PR"@, "TITLE"@, "AUTHOR"@, "MERGED"@],
        rows: Seq::new(rows.len(), |i: int| merged_cells_of_row(rows[i], ascii, now)),
    }
}

fn merged_row_cells(r: &ReviewedMergedRow, ascii: bool, now: Timestamp) -> (out: Vec<Cell>)
    requires
        now.valid(),
    ensures
        cells_view(out@) == merged_cells_of_row(r@, ascii, now),
{
    let dim = Style::new().dimmed();
    let glyph = char_text(status::glyph(Status::Merged, ascii));
    let author = truncate(r.author.as_str(), AUTHOR_WIDTH, ascii);
    let merged = age_at(now, &r.merged_at);
    let mut out: Vec<Cell> = Vec::new();
    out.push(Cell::plain(" "));
    out.push(Cell::styled(glyph.as_str(), status::fg(MAUVE)));
    out.push(Cell::pr(r.number, r.url.as_str(), status::fg(BLUE)));
    out.push(Cell::plain(r.title.as_str()));
    out.push(Cell::styled(author.as_str(), dim));
    out.push(Cell::styled(merged.as_str(), dim));
    proof {
        assert(cells_view(out@) =~= merged_cells_of_row(r@, ascii, now));
    }
    out
}

/// The table of the reviewed and merged pull requests, as seen from `now`.
pub fn merged_to_table_at(rows: &[ReviewedMergedRow], ascii: bool, now: Timestamp) -> (r: Table)
    requires
        now.valid(),
    ensures
        r@ == merged_table_of(rows_view(rows@), ascii, now),
        r@.wf(),
        r.rows@.len() == rows@.len(),
{
    let mut out: Vec<Vec<Cell>> = Vec::new();
    let ghost want = merged_table_of(rows_view(rows@), ascii, now);
    let mut i: usize = 0;
    while i < rows.len()
        invariant
            i <= rows@.len(),
            now.valid(),
            want == merged_table_of(rows_view(rows@), ascii, now),
            grid_view(out@) =~= want.rows.take(i as int),
        decreases rows@.len() - i,
    {
        let cells = merged_row_cells(&rows[i], ascii, now);
        proof {
            grid_view_push(out@, cells);
        }
        out.push(cells);
        i += 1;
    }
    let t = Table { header: vec!["", "", "PR", "TITLE", "AUTHOR", "MERGED"], rows: out };
    proof {
        assert(t@.header =~= want.header);
        assert(t@.rows =~= grid_view(out@));
        assert(t@.rows =~= want.rows);
    }
    t
}

/// The table of the reviewed and merged pull requests, as seen from the current
/// time.
pub fn merged_to_table(rows: &[ReviewedMergedRow], ascii: bool) -> (r: Table)
    ensures
        exists|now: Timestamp|
            crate::timefmt::clock_reading(now) && now.valid() && r@ == #[trigger] merged_table_of(rows_view(rows@), ascii, now),
        r@.wf(),
{
    let now = crate::timefmt::now();
    merged_to_table_at(rows, ascii, now)
}

/// The latest review is the latest of the dated ones, where there is one.
proof fn the_latest_is_a_review(reviews: Seq<MyReview>)
    ensures
        latest(reviews) is None <==> forall|i: int|
            0 <= i < reviews.len() ==> (#[trigger] reviews[i]).submitted_at is None,
        latest(reviews) is Some ==> exists|i: int|
            0 <= i < reviews.len() && opt_view((#[trigger] reviews[i]).submitted_at) == latest(
                reviews,
            ),
        forall|i: int|
            0 <= i < reviews.len() ==> rank_opt(
                opt_view((#[trigger] reviews[i]).submitted_at),
                latest(reviews),
            ) != Rank::After,
    decreases reviews.len(),
{
    if reviews.len() > 0 {
        let t = reviews.drop_last();
        let before = latest(t);
        let last = opt_view(reviews.last().submitted_at);
        the_latest_is_a_review(t);
        rank_opt_is_an_order(before, last, before);
        rank_opt_is_an_order(last, before, last);
        rank_opt_is_an_order(last, last, last);
        assert(reviews[reviews.len() - 1].submitted_at == reviews.last().submitted_at);
        assert forall|i: int| 0 <= i < reviews.len() implies rank_opt(
            opt_view((#[trigger] reviews[i]).submitted_at),
            latest(reviews),
        ) != Rank::After by {
            if i < t.len() {
                assert(t[i] == reviews[i]);
                rank_opt_is_an_order(opt_view(reviews[i].submitted_at), before, last);
            }
        }
        if latest(reviews) == before && before is Some {
            let i = choose|i: int|
                0 <= i < t.len() && opt_view((#[trigger] t[i]).submitted_at) == before;
            assert(reviews[i] == t[i]);
        }
        if latest(reviews) is None {
            assert forall|i: int| 0 <= i < reviews.len() implies (
            #[trigger] reviews[i]).submitted_at is None by {
                if i < t.len() {
                    assert(t[i] == reviews[i]);
                }
            }
        }
        if forall|i: int|
            0 <= i < reviews.len() ==> (#[trigger] reviews[i]).submitted_at is None {
            assert forall|i: int| 0 <= i < t.len() implies (#[trigger] t[i]).submitted_at
                is None by {
                assert(t[i] == reviews[i]);
            }
        }
    }
}

/// A pull request that requests my review asks for it, whatever the dates of its
/// commits and of my reviews: it awaits the first one exactly when I have none on
/// it, and another one exactly when I have one.
pub proof fn a_requested_review_is_asked_for(n: ReviewPrNode)
    ensures
        state_of(true, n) == ReviewState::Awaiting <==> n.reviews.nodes@.len() == 0,
        state_of(true, n) == ReviewState::ReReview <==> n.reviews.nodes@.len() > 0,
{
}

/// A pull request that does not request my review is updated exactly when its
/// last commit came after every dated review of mine, and there is one; otherwise
/// it is reviewed.
pub proof fn an_update_comes_after_my_reviews(n: ReviewPrNode)
    ensures
        state_of(false, n) == ReviewState::Updated <==> ({
            &&& n.commits.nodes@.len() > 0
            &&& n.commits.nodes@[0].commit.committed_date matches Some(c) && {
                &&& exists|i: int|
                    0 <= i < n.reviews.nodes@.len() && (
                    #[trigger] n.reviews.nodes@[i]).submitted_at is Some
                &&& forall|i: int|
                    0 <= i < n.reviews.nodes@.len() ==> ((
                    #[trigger] n.reviews.nodes@[i]).submitted_at matches Some(r) ==> rank_text(
                        c@,
                        r@,
                    ) == Rank::After)
            }
        }),
        state_of(false, n) == ReviewState::Updated || state_of(false, n) == ReviewState::Reviewed,
{
    let mine = n.reviews.nodes@;
    the_latest_is_a_review(mine);
    if n.commits.nodes@.len() > 0 {
        if let Some(c) = n.commits.nodes@[0].commit.committed_date {
            if let Some(m) = latest(mine) {
                let i = choose|i: int|
                    0 <= i < mine.len() && opt_view((#[trigger] mine[i]).submitted_at) == latest(
                        mine,
                    );
                assert(mine[i].submitted_at matches Some(r) && r@ == m);
                if rank_text(c@, m) == Rank::After {
                    assert forall|i: int| 0 <= i < mine.len() implies ((
                    #[trigger] mine[i]).submitted_at matches Some(r) ==> rank_text(c@, r@)
                        == Rank::After) by {
                        if let Some(r) = mine[i].submitted_at {
                            assert(rank_opt(opt_view(mine[i].submitted_at), latest(mine))
                                != Rank::After);
                            rank_text_is_an_order(c@, r@, m);
                        }
                    }
                }
            }
        }
    }
}

proof fn rows_come_from_nodes(
    nodes: Seq<ReviewPrNode>,
    requested: Seq<ReviewPrNode>,
    r: ReviewRowView,
)
    requires
        rows_of(nodes, requested).contains(r),
    ensures
        exists|i: int| #![trigger nodes[i]]
            0 <= i < nodes.len() && r == row_of(nodes[i], numbered(requested, nodes[i].number))
                && forall|k: int| 0 <= k < i ==> (#[trigger] nodes[k]).number != nodes[i].number,
    decreases nodes.len(),
{
    let rows = rows_of(nodes, requested);
    if nodes.len() > 0 {
        let t = nodes.drop_last();
        let u = rows_of(t, requested);
        let n = nodes.last();
        let at = choose|k: int| 0 <= k < rows.len() && rows[k] == r;
        if at < u.len() {
            assert(u[at] == r);
            assert(u.contains(r));
            rows_come_from_nodes(t, requested, r);
            let i = choose|i: int| #![trigger t[i]]
                0 <= i < t.len() && r == row_of(t[i], numbered(requested, t[i].number)) && forall|
                    k: int,
                |
                    0 <= k < i ==> (#[trigger] t[k]).number != t[i].number;
            assert(nodes[i] == t[i]);
            assert forall|k: int| 0 <= k < i implies (#[trigger] nodes[k]).number
                != nodes[i].number by {
                assert(t[k].number != t[i].number);
            }
        } else {
            let last = nodes.len() - 1;
            assert(nodes[last] == n);
            assert forall|k: int| 0 <= k < last implies (#[trigger] nodes[k]).number
                != nodes[last].number by {
                assert(t[k] == nodes[k]);
            }
        }
    }
}

/// The rows of the open reviews say of each pull request what the two searches
/// do. A row asks for my review exactly if its pull request is among the requested
/// ones, and all else in it is from a node with its number. There is one row for
/// each number among the nodes.
pub proof fn a_review_row_says_what_was_found(data: ReviewsData, k: int)
    requires
        0 <= k < open_rows(data).len(),
    ensures
        ({
            let r = open_rows(data)[k];
            let all = data.requested.nodes@ + data.reviewed.nodes@;
            let asked = exists|i: int|
                0 <= i < data.requested.nodes@.len() && (
                #[trigger] data.requested.nodes@[i]).number == r.number;
            &&& (r.state == ReviewState::Awaiting || r.state == ReviewState::ReReview) <==> asked
            &&& exists|i: int|
                0 <= i < all.len() && ({
                    let n = #[trigger] all[i];
                    &&& r.number == n.number
                    &&& r.title == n.title@
                    &&& r.url == n.url@
                    &&& r.is_draft == n.is_draft
                    &&& n.author matches Some(a) ==> r.author == a.login@
                    &&& n.author is None ==> r.author == "ghost"@
                    &&& r.updated_at == opt_view(n.updated_at)
                    &&& r.state == state_of(asked, n)
                })
        }),
{
    let req = data.requested.nodes@;
    let all = req + data.reviewed.nodes@;
    let rows = rows_of(all, req);
    let r = open_rows(data)[k];
    assert(open_rows(data).contains(r));
    sorting_keeps_the_rows::<ReviewRow>(rows, r);
    rows_come_from_nodes(all, req, r);
    let i = choose|i: int| #![trigger all[i]]
        0 <= i < all.len() && r == row_of(all[i], numbered(req, all[i].number)) && forall|k: int|
            0 <= k < i ==> (#[trigger] all[k]).number != all[i].number;
    a_requested_review_is_asked_for(all[i]);
    an_update_comes_after_my_reviews(all[i]);
}

/// Each pull request of the two searches is listed, and none twice.
pub proof fn each_review_is_listed_once(data: ReviewsData)
    ensures
        forall|i: int|
            0 <= i < data.requested.nodes@.len() ==> has_row(
                open_rows(data),
                (#[trigger] data.requested.nodes@[i]).number,
            ),
        forall|i: int|
            0 <= i < data.reviewed.nodes@.len() ==> has_row(
                open_rows(data),
                (#[trigger] data.reviewed.nodes@[i]).number,
            ),
        forall|i: int, j: int|
            0 <= i < j < open_rows(data).len() ==> (#[trigger] open_rows(data)[i]).number != (
            #[trigger] open_rows(data)[j]).number,
{
    let req = data.requested.nodes@;
    let rev = data.reviewed.nodes@;
    let all = req + rev;
    let rows = rows_of(all, req);
    one_row_for_each_pull_request(all, req);
    stable_sort_sorts::<ReviewRow>(rows);
    assert forall|n: i64| numbered(all, n) implies has_row(open_rows(data), n) by {
        assert(has_row(rows, n));
        let k = choose|k: int| 0 <= k < rows.len() && (#[trigger] rows[k]).number == n;
        assert(rows.contains(rows[k]));
        sorting_keeps_the_rows::<ReviewRow>(rows, rows[k]);
        let j = choose|j: int| 0 <= j < open_rows(data).len() && open_rows(data)[j] == rows[k];
        assert(open_rows(data)[j].number == n);
    }
    assert forall|i: int| 0 <= i < req.len() implies has_row(
        open_rows(data),
        (#[trigger] req[i]).number,
    ) by {
        assert(all[i].number == req[i].number);
        assert(numbered(all, req[i].number));
    }
    assert forall|i: int| 0 <= i < rev.len() implies has_row(
        open_rows(data),
        (#[trigger] rev[i]).number,
    ) by {
        assert(all[req.len() + i].number == rev[i].number);
        assert(numbered(all, rev[i].number));
    }
    let sorted = open_rows(data);
    assert(rows.no_duplicates());
    rows.lemma_multiset_has_no_duplicates();
    sorted.lemma_multiset_has_no_duplicates_conv();
    assert forall|i: int, j: int| 0 <= i < j < sorted.len() implies (#[trigger] sorted[i]).number
        != (#[trigger] sorted[j]).number by {
        assert(sorted.contains(sorted[i]) && sorted.contains(sorted[j]));
        sorting_keeps_the_rows::<ReviewRow>(rows, sorted[i]);
        sorting_keeps_the_rows::<ReviewRow>(rows, sorted[j]);
        let x = choose|x: int| 0 <= x < rows.len() && rows[x] == sorted[i];
        let y = choose|y: int| 0 <= y < rows.len() && rows[y] == sorted[j];
        assert(sorted[i] != sorted[j]);
        assert(x != y);
        if x < y {
            assert(rows[x].number != rows[y].number);
        } else {
            assert(rows[y].number != rows[x].number);
        }
    }
}

/// The most actionable reviews come first: those that await my review, then those
/// that ask again, then those updated since, then the reviewed ones. Within a
/// state the latest update comes first.
pub proof fn the_most_actionable_comes_first(data: ReviewsData, i: int, j: int)
    requires
        0 <= i < j < open_rows(data).len(),
    ensures
        ({
            let a = open_rows(data)[i];
            let b = open_rows(data)[j];
            &&& b.state == ReviewState::Awaiting ==> a.state == ReviewState::Awaiting
            &&& b.state == ReviewState::ReReview ==> a.state == ReviewState::Awaiting || a.state
                == ReviewState::ReReview
            &&& b.state == ReviewState::Updated ==> a.state != ReviewState::Reviewed
            &&& a.state == b.state ==> rank_latest(a.updated_at, a.number, b.updated_at, b.number)
                != Rank::After
        }),
{
    stable_sort_sorts::<ReviewRow>(
        rows_of(data.requested.nodes@ + data.reviewed.nodes@, data.requested.nodes@),
    );
    assert(<ReviewRow as Ranked>::rank(open_rows(data)[i], open_rows(data)[j]) != Rank::After);
}

/// Rows are kept one by one and in their order: those that are no drafts.
pub proof fn drafts_are_dropped_one_by_one(
    a: Seq<ReviewRowView>,
    b: Seq<ReviewRowView>,
    r: ReviewRowView,
)
    ensures
        undrafted(a + b) == undrafted(a) + undrafted(b),
        undrafted(seq![r]) == if r.is_draft {
            Seq::empty()
        } else {
            seq![r]
        },
    decreases b.len(),
{
    reveal_with_fuel(undrafted, 2);
    let none = Seq::<ReviewRowView>::empty();
    assert(seq![r].drop_last() =~= none);
    assert(none.push(r) =~= seq![r]);
    if b.len() == 0 {
        assert(a + b =~= a);
        assert(undrafted(a) + undrafted(b) =~= undrafted(a));
    } else {
        let t = b.drop_last();
        assert((a + b).drop_last() =~= a + t);
        drafts_are_dropped_one_by_one(a, t, r);
        assert((undrafted(a) + undrafted(t)).push(b.last()) =~= undrafted(a) + undrafted(t).push(
            b.last(),
        ));
    }
}

/// Each merged pull request that I reviewed has its row among the first `limit`,
/// the most recently merged first, unless that many come before it.
pub proof fn the_latest_reviewed_merges_are_kept(nodes: Seq<MergedNode>, limit: nat, i: int)
    requires
        0 <= i < nodes.len(),
    ensures
        ({
            let kept = capped(stable_sort::<ReviewedMergedRow>(merged_rows_of(nodes)), limit);
            let n = nodes[i];
            let r = ReviewedMergedView {
                number: n.number,
                title: n.title@,
                author: match n.author {
                    Some(a) => a.login@,
                    None => "ghost"@,
                },
                url: n.url@,
                merged_at: opt_view(n.merged_at),
            };
            &&& kept.len() == if nodes.len() <= limit {
                nodes.len()
            } else {
                limit
            }
            &&& !kept.contains(r) ==> nodes.len() > limit && forall|k: int|
                0 <= k < kept.len() ==> rank_latest(
                    (#[trigger] kept[k]).merged_at,
                    kept[k].number,
                    r.merged_at,
                    r.number,
                ) != Rank::After
            &&& forall|j: int, k: int|
                0 <= j < k < kept.len() ==> rank_latest(
                    (#[trigger] kept[j]).merged_at,
                    kept[j].number,
                    (#[trigger] kept[k]).merged_at,
                    kept[k].number,
                ) != Rank::After
        }),
{
    let rows = merged_rows_of(nodes);
    let sorted = stable_sort::<ReviewedMergedRow>(rows);
    let kept = capped(sorted, limit);
    stable_sort_sorts::<ReviewedMergedRow>(rows);
    assert(rows.contains(rows[i]));
    sorting_keeps_the_rows::<ReviewedMergedRow>(rows, rows[i]);
    let r = rows[i];
    let at = choose|k: int| 0 <= k < sorted.len() && sorted[k] == r;
    if at < kept.len() {
        assert(kept[at] == r);
    }
    assert forall|j: int, k: int| 0 <= j < k < kept.len() implies rank_latest(
        (#[trigger] kept[j]).merged_at,
        kept[j].number,
        (#[trigger] kept[k]).merged_at,
        kept[k].number,
    ) != Rank::After by {
        assert(<ReviewedMergedRow as Ranked>::rank(sorted[j], sorted[k]) != Rank::After);
    }
    if !kept.contains(r) {
        assert forall|k: int| 0 <= k < kept.len() implies rank_latest(
            (#[trigger] kept[k]).merged_at,
            kept[k].number,
            r.merged_at,
            r.number,
        ) != Rank::After by {
            assert(<ReviewedMergedRow as Ranked>::rank(sorted[k], sorted[at]) != Rank::After);
        }
    }
}

/// What deriving a review state gives: a requested review is asked for, the first
/// or another one by whether I have any, and the dates have no say in it.
pub proof fn a_derived_state_asks_for_requested_reviews(
    requested: bool,
    node: &ReviewPrNode,
    r: ReviewState,
)
    requires
        call_ensures(review_state, (requested, node), r),
    ensures
        r == ReviewState::Awaiting <==> requested && node.reviews.nodes@.len() == 0,
        r == ReviewState::ReReview <==> requested && node.reviews.nodes@.len() > 0,
        !requested && node.reviews.nodes@.len() == 0 ==> r == ReviewState::Reviewed,
        !requested ==> (r == ReviewState::Updated <==> ({
            &&& node.commits.nodes@.len() > 0
            &&& node.commits.nodes@[0].commit.committed_date matches Some(c) && {
                &&& exists|i: int|
                    0 <= i < node.reviews.nodes@.len() && (
                    #[trigger] node.reviews.nodes@[i]).submitted_at is Some
                &&& forall|i: int|
                    0 <= i < node.reviews.nodes@.len() ==> ((
                    #[trigger] node.reviews.nodes@[i]).submitted_at matches Some(t) ==> rank_text(
                        c@,
                        t@,
                    ) == Rank::After)
            }
        })),
{
    a_requested_review_is_asked_for(*node);
    an_update_comes_after_my_reviews(*node);
}

/// The rows that are built of the two searches: what is asked of me comes first,
/// and a row asks exactly if its pull request was among the requested ones.
pub proof fn built_reviews_ask_first(data: ReviewsData, r: Vec<ReviewRow>, i: int, j: int)
    requires
        call_ensures(build_open_rows, (data,), r),
        0 <= i < j < r@.len(),
    ensures
        r@[j].state == ReviewState::Awaiting ==> r@[i].state == ReviewState::Awaiting,
        r@[j].state == ReviewState::ReReview ==> r@[i].state == ReviewState::Awaiting || r@[i].state
            == ReviewState::ReReview,
        r@[j].state == ReviewState::Updated ==> r@[i].state != ReviewState::Reviewed,
        r@[i].number != r@[j].number,
        (r@[i].state == ReviewState::Awaiting || r@[i].state == ReviewState::ReReview)
            <==> exists|k: int|
            0 <= k < data.requested.nodes@.len() && (#[trigger] data.requested.nodes@[k]).number
                == r@[i].number,
{
    let rows = open_rows(data);
    assert(rows_view(r@) == rows);
    assert(rows.len() == r@.len());
    assert(rows[i] == r@[i]@ && rows[j] == r@[j]@);
    the_most_actionable_comes_first(data, i, j);
    each_review_is_listed_once(data);
    a_review_row_says_what_was_found(data, i);
}

/// A row shows its review: its number with a link to its page, its title, its
/// author, and how long ago it was updated; and two rows with different states are
/// told apart by what is drawn for them.
pub proof fn a_row_shows_its_review(
    r: ReviewRowView,
    other: ReviewRowView,
    ascii: bool,
    now: Timestamp,
)
    ensures
        ({
            let c = cells_of_row(r, ascii, now);
            let d = cells_of_row(other, ascii, now);
            &&& c.len() == 6
            &&& c[1].text == d[1].text <==> r.state == other.state
            &&& c[2].text == "#"@ + crate::text::dec_signed(r.number as int) && c[2].link == r.url
            &&& c[2].style.faint <==> r.is_draft
            &&& c[3].text == r.title
            &&& c[4].text == ellipsized(r.author, 16, ascii)
            &&& c[5].text == age_seen(now, r.updated_at)
        }),
{
    let c = cells_of_row(r, ascii, now);
    let d = cells_of_row(other, ascii, now);
    assert(c[1].text[0] == review_sign(r.state, ascii));
    assert(d[1].text[0] == review_sign(other.state, ascii));
}

} // verus!
