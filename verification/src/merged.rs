//! The view of recently merged pull requests: rows, their order, and their table.

use crate::commits::{release_in, release_of, ReleaseMap, ReleaseRef, ReleaseView};
use crate::model::MergedNode;
use crate::order::{
    rows_view, rows_view_push, sort_rows, sorting_keeps_the_rows, stable_sort, stable_sort_sorts,
    Ranked,
};
use crate::render::{
    cell_of, cells_view, change_marker, char_text, grid_view, grid_view_push, link_of, marker,
    pr_cell, Cell, CellView, Table, TableView,
};
use crate::status::{
    self, in_color, in_faint, sign, unstyled, Status, Style, BLUE, MAUVE,
};
use crate::text::{
    compare_latest, copy_opt, opt_view, rank_latest, rank_latest_is_an_order, Rank,
};
use crate::timefmt::{age_at, age_seen, Timestamp};
use std::collections::HashSet;
use vstd::prelude::*;

verus! {

/// A merged pull request of mine.
#[derive(Debug, PartialEq, Eq)]
pub struct MergedRow {
    pub number: i64,
    pub title: String,
    pub url: String,
    /// The release that shipped it, or `None` when it has not shipped yet.
    pub release: Option<ReleaseRef>,
    pub merged_at: Option<String>,
    pub updated_at: Option<String>,
}

/// What a row of the merged pull requests says.
pub struct MergedRowView {
    pub number: i64,
    pub title: Seq<char>,
    pub url: Seq<char>,
    pub release: Option<ReleaseView>,
    pub merged_at: Option<Seq<char>>,
    pub updated_at: Option<Seq<char>>,
}

/// A release, if there is one, as text.
pub open spec fn release_view(r: Option<ReleaseRef>) -> Option<ReleaseView> {
    match r {
        Some(x) => Some(x@),
        None => None,
    }
}

impl View for MergedRow {
    type V = MergedRowView;

    open spec fn view(&self) -> MergedRowView {
        MergedRowView {
            number: self.number,
            title: self.title@,
            url: self.url@,
            release: release_view(self.release),
            merged_at: opt_view(self.merged_at),
            updated_at: opt_view(self.updated_at),
        }
    }
}

impl Clone for MergedRow {
    fn clone(&self) -> (r: Self)
        ensures
            r@ == self@,
    {
        MergedRow {
            number: self.number,
            title: self.title.clone(),
            url: self.url.clone(),
            release: match &self.release {
                Some(x) => Some(x.clone()),
                None => None,
            },
            merged_at: copy_opt(&self.merged_at),
            updated_at: copy_opt(&self.updated_at),
        }
    }
}

/// Rows sort by their update time, the most recent first, then by number, the
/// highest first.
impl Ranked for MergedRow {
    open spec fn rank(a: MergedRowView, b: MergedRowView) -> Rank {
        rank_latest(a.updated_at, a.number, b.updated_at, b.number)
    }

    proof fn rank_is_an_order(a: MergedRowView, b: MergedRowView, c: MergedRowView) {
        rank_latest_is_an_order(
            a.updated_at,
            a.number,
            b.updated_at,
            b.number,
            c.updated_at,
            c.number,
        );
    }

    fn compare(&self, other: &Self) -> (r: Rank) {
        compare_latest(&self.updated_at, self.number, &other.updated_at, other.number)
    }
}

/// The first `limit` elements of `s`, or all of them when there are fewer.
pub open spec fn capped<A>(s: Seq<A>, limit: nat) -> Seq<A> {
    if s.len() <= limit {
        s
    } else {
        s.take(limit as int)
    }
}

/// The row of a merged pull request.
pub open spec fn row_of(n: MergedNode, releases: Map<i64, ReleaseRef>) -> MergedRowView {
    MergedRowView {
        number: n.number,
        title: n.title@,
        url: n.url@,
        release: release_in(releases, n.number),
        merged_at: opt_view(n.merged_at),
        updated_at: opt_view(n.updated_at),
    }
}

/// The rows of merged pull requests, in the order they come.
pub open spec fn rows_of(
    nodes: Seq<MergedNode>,
    releases: Map<i64, ReleaseRef>,
) -> Seq<MergedRowView> {
    Seq::new(nodes.len(), |i: int| row_of(nodes[i], releases))
}

/// Build rows, the most recently updated first, and keep the first `limit`.
/// `releases` maps a pull request's number to the release that shipped it.
pub fn build_rows(nodes: Vec<MergedNode>, limit: usize, releases: &ReleaseMap) -> (r: Vec<
    MergedRow,
>)
    ensures
        rows_view(r@) == capped(
            stable_sort::<MergedRow>(rows_of(nodes@, releases@)),
            limit as nat,
        ),
{
    let mut rows: Vec<MergedRow> = Vec::new();
    let mut i: usize = 0;
    while i < nodes.len()
        invariant
            i <= nodes@.len(),
            rows_view(rows@) =~= rows_of(nodes@, releases@).take(i as int),
        decreases nodes@.len() - i,
    {
        let n = &nodes[i];
        let row = MergedRow {
            number: n.number,
            title: n.title.clone(),
            url: n.url.clone(),
            release: release_of(releases, n.number),
            merged_at: copy_opt(&n.merged_at),
            updated_at: copy_opt(&n.updated_at),
        };
        proof {
            assert(row@ == row_of(nodes@[i as int], releases@));
            rows_view_push(rows@, row);
        }
        rows.push(row);
        i += 1;
    }
    proof {
        assert(rows_view(rows@) =~= rows_of(nodes@, releases@));
    }
    let mut sorted = sort_rows(rows);
    let ghost all = rows_view(sorted@);
    sorted.truncate(limit);
    proof {
        assert(rows_view(sorted@) =~= capped(all, limit as nat));
    }
    sorted
}


/// The cells of a merged pull request's row. The release links to its page; one
/// that has not shipped shows a dash.
pub open spec fn cells_of_row(
    r: MergedRowView,
    ascii: bool,
    highlight: Set<i64>,
    now: Timestamp,
) -> Seq<CellView> {
    seq![
        marker(highlight.contains(r.number), ascii),
        cell_of(seq![sign(Status::Merged, ascii)], in_color(MAUVE)),
        pr_cell(r.number, r.url, in_color(BLUE)),
        cell_of(r.title, unstyled()),
        match r.release {
            Some(x) => link_of(x.tag, x.url, in_faint()),
            None => cell_of("\u{2014}"@, in_faint()),
        },
        cell_of(age_seen(now, r.merged_at), in_faint()),
    ]
}

/// The table of the merged pull requests, as seen from a point in time; those in
/// `highlight` are marked as changed.
pub open spec fn table_of(
    rows: Seq<MergedRowView>,
    ascii: bool,
    highlight: Set<i64>,
    now: Timestamp,
) -> TableView {
    TableView {
        header: seq![""@, ""@, "PR"@, "TITLE"@, "RELEASE"@, "MERGED"@],
        rows: Seq::new(rows.len(), |i: int| cells_of_row(rows[i], ascii, highlight, now)),
    }
}

fn row_cells(r: &MergedRow, ascii: bool, highlight: &HashSet<i64>, now: Timestamp) -> (out: Vec<
    Cell,
>)
    requires
        now.valid(),
    ensures
        cells_view(out@) == cells_of_row(r@, ascii, highlight@, now),
{
    let dim = Style::new().dimmed();
    let glyph = char_text(status::glyph(Status::Merged, ascii));
    let merged = age_at(now, &r.merged_at);
    let mut out: Vec<Cell> = Vec::new();
    out.push(change_marker(highlight.contains(&r.number), ascii));
    out.push(Cell::styled(glyph.as_str(), status::fg(MAUVE)));
    out.push(Cell::pr(r.number, r.url.as_str(), status::fg(BLUE)));
    out.push(Cell::plain(r.title.as_str()));
    match &r.release {
        Some(x) => out.push(Cell::link(x.tag.as_str(), x.url.as_str())),
        None => out.push(Cell::styled("\u{2014}", dim)),
    }
    out.push(Cell::styled(merged.as_str(), dim));
    proof {
        assert(cells_view(out@) =~= cells_of_row(r@, ascii, highlight@, now));
    }
    out
}

/// The table of the merged pull requests, as seen from `now`.
pub fn to_table_at(
    rows: &[MergedRow],
    ascii: bool,
    highlight: &HashSet<i64>,
    now: Timestamp,
) -> (r: Table)
    requires
        now.valid(),
    ensures
        r@ == table_of(rows_view(rows@), ascii, highlight@, now),
        r@.wf(),
        r.rows@.len() == rows@.len(),
{
    let mut out: Vec<Vec<Cell>> = Vec::new();
    let ghost want = table_of(rows_view(rows@), ascii, highlight@, now);
    let mut i: usize = 0;
    while i < rows.len()
        invariant
            i <= rows@.len(),
            now.valid(),
            want == table_of(rows_view(rows@), ascii, highlight@, now),
            grid_view(out@) =~= want.rows.take(i as int),
        decreases rows@.len() - i,
    {
        let cells = row_cells(&rows[i], ascii, highlight, now);
        proof {
            grid_view_push(out@, cells);
        }
        out.push(cells);
        i += 1;
    }
    let t = Table { header: vec!["", "", "PR", "TITLE", "RELEASE", "MERGED"], rows: out };
    proof {
        assert(t@.header =~= want.header);
        assert(t@.rows =~= grid_view(out@));
        assert(t@.rows =~= want.rows);
    }
    t
}

/// The table of the merged pull requests, as seen from the current time.
pub fn to_table(rows: &[MergedRow], ascii: bool, highlight: &HashSet<i64>) -> (r: Table)
    ensures
        exists|now: Timestamp|
            crate::timefmt::clock_reading(now) && now.valid() && r@ == #[trigger] table_of(rows_view(rows@), ascii, highlight@, now),
        r@.wf(),
{
    let now = crate::timefmt::now();
    to_table_at(rows, ascii, highlight, now)
}

/// The rows are the first ones, `limit` at most, of the merged pull requests with
/// the most recently updated first, so one is left out only for others that come
/// before it.
pub proof fn the_most_recent_merges_are_kept(
    nodes: Seq<MergedNode>,
    releases: Map<i64, ReleaseRef>,
    limit: nat,
    i: int,
)
    requires
        0 <= i < nodes.len(),
    ensures
        ({
            let kept = capped(stable_sort::<MergedRow>(rows_of(nodes, releases)), limit);
            let n = nodes[i];
            let r = MergedRowView {
                number: n.number,
                title: n.title@,
                url: n.url@,
                release: release_in(releases, n.number),
                merged_at: opt_view(n.merged_at),
                updated_at: opt_view(n.updated_at),
            };
            &&& kept.len() == if nodes.len() <= limit {
                nodes.len()
            } else {
                limit
            }
            &&& !kept.contains(r) ==> nodes.len() > limit && forall|k: int|
                0 <= k < kept.len() ==> rank_latest(
                    (#[trigger] kept[k]).updated_at,
                    kept[k].number,
                    r.updated_at,
                    r.number,
                ) != Rank::After
            &&& forall|j: int, k: int|
                0 <= j < k < kept.len() ==> rank_latest(
                    (#[trigger] kept[j]).updated_at,
                    kept[j].number,
                    (#[trigger] kept[k]).updated_at,
                    kept[k].number,
                ) != Rank::After
        }),
{
    let rows = rows_of(nodes, releases);
    let sorted = stable_sort::<MergedRow>(rows);
    let kept = capped(sorted, limit);
    stable_sort_sorts::<MergedRow>(rows);
    assert(rows.contains(rows[i]));
    sorting_keeps_the_rows::<MergedRow>(rows, rows[i]);
    let r = rows[i];
    let at = choose|k: int| 0 <= k < sorted.len() && sorted[k] == r;
    if at < kept.len() {
        assert(kept[at] == r);
    }
    assert forall|j: int, k: int| 0 <= j < k < kept.len() implies rank_latest(
        (#[trigger] kept[j]).updated_at,
        kept[j].number,
        (#[trigger] kept[k]).updated_at,
        kept[k].number,
    ) != Rank::After by {
        assert(<MergedRow as Ranked>::rank(sorted[j], sorted[k]) != Rank::After);
    }
    if !kept.contains(r) {
        assert forall|k: int| 0 <= k < kept.len() implies rank_latest(
            (#[trigger] kept[k]).updated_at,
            kept[k].number,
            r.updated_at,
            r.number,
        ) != Rank::After by {
            assert(<MergedRow as Ranked>::rank(sorted[k], sorted[at]) != Rank::After);
        }
    }
}

/// A row shows its merged pull request: a mark exactly if it is newly merged, its
/// number with a link to its page, its title, the release that shipped it with a
/// link, or a dash where none did, and how long ago it merged.
pub proof fn a_row_shows_its_merge(
    r: MergedRowView,
    ascii: bool,
    highlight: Set<i64>,
    now: Timestamp,
)
    ensures
        ({
            let c = cells_of_row(r, ascii, highlight, now);
            &&& c.len() == 6
            &&& c[0].style.bold <==> highlight.contains(r.number)
            &&& c[2].text == "#"@ + crate::text::dec_signed(r.number as int) && c[2].link == r.url
            &&& c[3].text == r.title
            &&& r.release matches Some(x) ==> c[4].text == x.tag && c[4].link == x.url
            &&& r.release is None ==> c[4].text == "\u{2014}"@ && c[4].link.len() == 0
            &&& c[5].text == age_seen(now, r.merged_at)
        }),
{
}

/// The rows that are built are as many as the limit lets be, the most recently
/// updated first.
pub proof fn built_rows_have_the_most_recent_first(
    nodes: Vec<MergedNode>,
    limit: usize,
    releases: &ReleaseMap,
    r: Vec<MergedRow>,
    i: int,
    j: int,
)
    requires
        call_ensures(build_rows, (nodes, limit, releases), r),
        0 <= i < j < r@.len(),
    ensures
        r@.len() == if nodes@.len() <= limit {
            nodes@.len() as int
        } else {
            limit as int
        },
        rank_latest(
            opt_view(r@[i].updated_at),
            r@[i].number,
            opt_view(r@[j].updated_at),
            r@[j].number,
        ) != Rank::After,
{
    let rows = rows_of(nodes@, releases@);
    stable_sort_sorts::<MergedRow>(rows);
    let kept = capped(stable_sort::<MergedRow>(rows), limit as nat);
    assert(rows_view(r@) == kept);
    assert(r@.len() == kept.len());
    the_most_recent_merges_are_kept(nodes@, releases@, limit as nat, 0);
    assert(kept[i] == r@[i]@ && kept[j] == r@[j]@);
}

} // verus!
