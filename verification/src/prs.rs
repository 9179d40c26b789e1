//! The view of my open pull requests: rows, their order, and their table.

use crate::model::PrNode;
use crate::order::{
    rows_view, rows_view_push, sort_rows, sorting_keeps_the_rows, stable_sort, stable_sort_sorts,
    Ranked,
};
use crate::render::{
    cell_of, cells_view, change_marker, char_text, grid_view, grid_view_push, marker, pr_cell,
    status_cell, status_cell_of, Cell, CellView, Table, TableView,
};
use crate::status::{self, in_color, in_faint, unstyled, Status, Style, BLUE, RED};
use crate::text::{
    compare_latest, copy_opt, dec, decimal, opt_view, rank_latest, rank_latest_is_an_order,
    rank_text, Rank,
};
use std::collections::HashSet;
use vstd::prelude::*;

verus! {

/// An open pull request of mine.
#[derive(Debug, PartialEq, Eq)]
pub struct PrRow {
    pub number: i64,
    pub is_draft: bool,
    pub title: String,
    pub status: Option<Status>,
    pub merge_state: Option<String>,
    /// Its position and state in the merge queue, if it is there.
    pub queue: Option<(i64, String)>,
    pub fail: usize,
    pub url: String,
    pub updated_at: Option<String>,
}

/// What a row of the open pull requests says.
pub struct PrRowView {
    pub number: i64,
    pub is_draft: bool,
    pub title: Seq<char>,
    pub status: Option<Status>,
    pub merge_state: Option<Seq<char>>,
    pub queue: Option<(i64, Seq<char>)>,
    pub fail: nat,
    pub url: Seq<char>,
    pub updated_at: Option<Seq<char>>,
}

/// A queue position with its state as text.
pub open spec fn queue_view(q: Option<(i64, String)>) -> Option<(i64, Seq<char>)> {
    match q {
        Some(e) => Some((e.0, e.1@)),
        None => None,
    }
}

/// Copy a queue position with its state.
pub fn copy_queue(q: &Option<(i64, String)>) -> (r: Option<(i64, String)>)
    ensures
        queue_view(r) == queue_view(*q),
{
    match q {
        Some(e) => Some((e.0, e.1.clone())),
        None => None,
    }
}

impl View for PrRow {
    type V = PrRowView;

    open spec fn view(&self) -> PrRowView {
        PrRowView {
            number: self.number,
            is_draft: self.is_draft,
            title: self.title@,
            status: self.status,
            merge_state: opt_view(self.merge_state),
            queue: queue_view(self.queue),
            fail: self.fail as nat,
            url: self.url@,
            updated_at: opt_view(self.updated_at),
        }
    }
}

impl Clone for PrRow {
    fn clone(&self) -> (r: Self)
        ensures
            r@ == self@,
    {
        PrRow {
            number: self.number,
            is_draft: self.is_draft,
            title: self.title.clone(),
            status: self.status,
            merge_state: copy_opt(&self.merge_state),
            queue: copy_queue(&self.queue),
            fail: self.fail,
            url: self.url.clone(),
            updated_at: copy_opt(&self.updated_at),
        }
    }
}

/// Rows sort by their update time, the most recent first, then by number, the
/// highest first. Timestamps of the form `...Z` sort as text as they do in time.
impl Ranked for PrRow {
    open spec fn rank(a: PrRowView, b: PrRowView) -> Rank {
        rank_latest(a.updated_at, a.number, b.updated_at, b.number)
    }

    proof fn rank_is_an_order(a: PrRowView, b: PrRowView, c: PrRowView) {
        rank_latest_is_an_order(
            a.updated_at,
            a.number,
            b.updated_at,
            b.number,
            c.updated_at,
            c.number,
        );
    }

    fn compare(&self, other: &Self) -> (r: Rank) {
        compare_latest(&self.updated_at, self.number, &other.updated_at, other.number)
    }
}

/// The row of a pull request.
pub open spec fn row_of(pr: PrNode) -> PrRowView {
    PrRowView {
        number: pr.number,
        is_draft: pr.is_draft,
        title: pr.title@,
        status: status::status_of_pr(pr),
        merge_state: opt_view(pr.merge_state_status),
        queue: match pr.merge_queue_entry {
            Some(e) => Some((e.position, e.state@)),
            None => None,
        },
        fail: status::failures(status::suite_nodes(pr)),
        url: pr.url@,
        updated_at: opt_view(pr.updated_at),
    }
}

/// The rows of pull requests, in the order they come.
pub open spec fn rows_of(nodes: Seq<PrNode>) -> Seq<PrRowView> {
    Seq::new(nodes.len(), |i: int| row_of(nodes[i]))
}

/// Build rows, the most recently updated first.
pub fn build_rows(nodes: Vec<PrNode>) -> (r: Vec<PrRow>)
    ensures
        rows_view(r@) == stable_sort::<PrRow>(rows_of(nodes@)),
{
    let mut rows: Vec<PrRow> = Vec::new();
    let mut i: usize = 0;
    while i < nodes.len()
        invariant
            i <= nodes@.len(),
            rows_view(rows@) =~= rows_of(nodes@).take(i as int),
        decreases nodes@.len() - i,
    {
        let pr = &nodes[i];
        let queue = match &pr.merge_queue_entry {
            Some(e) => Some((e.position, e.state.clone())),
            None => None,
        };
        let row = PrRow {
            number: pr.number,
            is_draft: pr.is_draft,
            title: pr.title.clone(),
            status: status::pr_status(pr),
            merge_state: copy_opt(&pr.merge_state_status),
            queue,
            fail: status::fail_count(status::last_suites(pr)),
            url: pr.url.clone(),
            updated_at: copy_opt(&pr.updated_at),
        };
        proof {
            assert(row@ == row_of(nodes@[i as int]));
            rows_view_push(rows@, row);
        }
        rows.push(row);
        i += 1;
    }
    proof {
        assert(rows_view(rows@) =~= rows_of(nodes@));
    }
    sort_rows(rows)
}

/// The rows that are not in the merge queue.
pub open spec fn unqueued(s: Seq<PrRowView>) -> Seq<PrRowView>
    decreases s.len(),
{
    if s.len() == 0 {
        s
    } else if s.last().queue is None {
        unqueued(s.drop_last()).push(s.last())
    } else {
        unqueued(s.drop_last())
    }
}

/// The rows that are not drafts.
pub open spec fn undrafted(s: Seq<PrRowView>) -> Seq<PrRowView>
    decreases s.len(),
{
    if s.len() == 0 {
        s
    } else if !s.last().is_draft {
        undrafted(s.drop_last()).push(s.last())
    } else {
        undrafted(s.drop_last())
    }
}

/// Drop the pull requests that are in the merge queue: the queue section shows
/// them. A caller that hides the queue section keeps them.
pub fn without_queued(rows: Vec<PrRow>) -> (r: Vec<PrRow>)
    ensures
        rows_view(r@) == unqueued(rows_view(rows@)),
{
    let mut out: Vec<PrRow> = Vec::new();
    let ghost all = rows_view(rows@);
    let mut i: usize = 0;
    proof {
        assert(all.take(0) =~= rows_view(out@));
    }
    while i < rows.len()
        invariant
            i <= rows@.len(),
            all == rows_view(rows@),
            rows_view(out@) == unqueued(all.take(i as int)),
        decreases rows@.len() - i,
    {
        let ghost before = rows_view(out@);
        proof {
            assert(all.take(i + 1).drop_last() =~= all.take(i as int));
        }
        if rows[i].queue.is_none() {
            let row = rows[i].clone();
            out.push(row);
            proof {
                assert(rows_view(out@) =~= before.push(row@));
            }
        }
        i += 1;
    }
    proof {
        assert(all.take(i as int) =~= all);
    }
    out
}

/// Drop the drafts.
pub fn without_drafts(rows: Vec<PrRow>) -> (r: Vec<PrRow>)
    ensures
        rows_view(r@) == undrafted(rows_view(rows@)),
{
    let mut out: Vec<PrRow> = Vec::new();
    let ghost all = rows_view(rows@);
    let mut i: usize = 0;
    proof {
        assert(all.take(0) =~= rows_view(out@));
    }
    while i < rows.len()
        invariant
            i <= rows@.len(),
            all == rows_view(rows@),
            rows_view(out@) == undrafted(all.take(i as int)),
        decreases rows@.len() - i,
    {
        let ghost before = rows_view(out@);
        proof {
            assert(all.take(i + 1).drop_last() =~= all.take(i as int));
        }
        if !rows[i].is_draft {
            let row = rows[i].clone();
            out.push(row);
            proof {
                assert(rows_view(out@) =~= before.push(row@));
            }
        }
        i += 1;
    }
    proof {
        assert(all.take(i as int) =~= all);
    }
    out
}

/// What is left of the rows once the queued ones are dropped is exactly the
/// rows outside the queue: none of it is queued, and each row outside the queue
/// is still there.
pub proof fn only_unqueued_rows_stay(s: Seq<PrRowView>, r: PrRowView)
    ensures
        unqueued(s).contains(r) <==> s.contains(r) && r.queue is None,
    decreases s.len(),
{
    if s.len() > 0 {
        let t = s.drop_last();
        only_unqueued_rows_stay(t, r);
        assert(s =~= t.push(s.last()));
        assert(s.contains(r) <==> t.contains(r) || r == s.last()) by {
            if t.contains(r) {
                let i = choose|i: int| 0 <= i < t.len() && t[i] == r;
                assert(s[i] == r);
            }
            if r == s.last() {
                assert(s[s.len() - 1] == r);
            }
        }
        let u = unqueued(t);
        assert(u.push(s.last()).contains(r) <==> u.contains(r) || r == s.last()) by {
            if u.contains(r) {
                let i = choose|i: int| 0 <= i < u.len() && u[i] == r;
                assert(u.push(s.last())[i] == r);
            }
            assert(u.push(s.last())[u.len() as int] == s.last());
        }
    }
}


/// The cells of an open pull request's row.
pub open spec fn cells_of_row(r: PrRowView, ascii: bool, highlight: Set<i64>) -> Seq<CellView> {
    let state = match r.merge_state {
        Some(s) => s,
        None => "?"@,
    };
    seq![
        marker(highlight.contains(r.number), ascii),
        match r.status {
            Some(s) => status_cell_of(s, ascii),
            None => cell_of("-"@, in_faint()),
        },
        pr_cell(
            r.number,
            r.url,
            if r.is_draft {
                in_faint()
            } else {
                in_color(BLUE)
            },
        ),
        cell_of(r.title, unstyled()),
        cell_of(
            if ascii {
                status::label_of_state(state)
            } else {
                seq![status::glyph_of_state(state)]
            },
            status::style_of_state(state),
        ),
        if r.fail == 0 {
            cell_of("-"@, in_faint())
        } else {
            cell_of(dec(r.fail), Style { bold: true, ..in_color(RED) })
        },
    ]
}

/// The table of the open pull requests; those in `highlight` are marked as
/// changed.
pub open spec fn table_of(rows: Seq<PrRowView>, ascii: bool, highlight: Set<i64>) -> TableView {
    TableView {
        header: seq![""@, ""@, "PR"@, "TITLE"@, "STATE"@, "FAIL"@],
        rows: Seq::new(rows.len(), |i: int| cells_of_row(rows[i], ascii, highlight)),
    }
}

fn row_cells(r: &PrRow, ascii: bool, highlight: &HashSet<i64>) -> (out: Vec<Cell>)
    ensures
        cells_view(out@) == cells_of_row(r@, ascii, highlight@),
{
    let mut out: Vec<Cell> = Vec::new();
    out.push(change_marker(highlight.contains(&r.number), ascii));
    match r.status {
        Some(s) => out.push(status_cell(s, ascii)),
        None => out.push(Cell::styled("-", Style::new().dimmed())),
    }
    let pr_style = if r.is_draft {
        Style::new().dimmed()
    } else {
        status::fg(BLUE)
    };
    out.push(Cell::pr(r.number, r.url.as_str(), pr_style));
    out.push(Cell::plain(r.title.as_str()));
    let state = match &r.merge_state {
        Some(s) => s.as_str(),
        None => "?",
    };
    let style = status::state_style(state);
    if ascii {
        out.push(Cell::styled(status::state_label(state), style));
    } else {
        let glyph = char_text(status::state_glyph(state));
        out.push(Cell::styled(glyph.as_str(), style));
    }
    if r.fail == 0 {
        out.push(Cell::styled("-", Style::new().dimmed()));
    } else {
        let fail = decimal(r.fail as u128);
        out.push(Cell::styled(fail.as_str(), status::fg(RED).bold()));
    }
    proof {
        assert(cells_view(out@) =~= cells_of_row(r@, ascii, highlight@));
    }
    out
}

/// The table of the open pull requests.
pub fn to_table(rows: &[PrRow], ascii: bool, highlight: &HashSet<i64>) -> (r: Table)
    ensures
        r@ == table_of(rows_view(rows@), ascii, highlight@),
        r@.wf(),
        r.rows@.len() == rows@.len(),
{
    let mut out: Vec<Vec<Cell>> = Vec::new();
    let ghost want = table_of(rows_view(rows@), ascii, highlight@);
    let mut i: usize = 0;
    while i < rows.len()
        invariant
            i <= rows@.len(),
            want == table_of(rows_view(rows@), ascii, highlight@),
            grid_view(out@) =~= want.rows.take(i as int),
        decreases rows@.len() - i,
    {
        let cells = row_cells(&rows[i], ascii, highlight);
        proof {
            grid_view_push(out@, cells);
        }
        out.push(cells);
        i += 1;
    }
    let t = Table { header: vec!["", "", "PR", "TITLE", "STATE", "FAIL"], rows: out };
    proof {
        assert(t@.header =~= want.header);
        assert(t@.rows =~= grid_view(out@));
        assert(t@.rows =~= want.rows);
    }
    t
}

/// Each pull request has its row, and there are no others: with its own number,
/// title, page, merge state, place in the queue and update time, the status that
/// its fields come to, and the count of the suites that failed on its last commit.
pub proof fn each_pull_request_has_its_row(nodes: Seq<PrNode>, i: int)
    requires
        0 <= i < nodes.len(),
    ensures
        stable_sort::<PrRow>(rows_of(nodes)).len() == nodes.len(),
        exists|k: int|
            0 <= k < nodes.len() && ({
                let r = #[trigger] stable_sort::<PrRow>(rows_of(nodes))[k];
                let n = nodes[i];
                &&& r.number == n.number
                &&& r.is_draft == n.is_draft
                &&& r.title == n.title@
                &&& r.url == n.url@
                &&& r.status == status::status_of_pr(n)
                &&& r.merge_state == opt_view(n.merge_state_status)
                &&& r.queue is Some <==> n.merge_queue_entry is Some
                &&& n.merge_queue_entry matches Some(e) ==> r.queue == Some((e.position, e.state@))
                &&& n.commits.nodes@.len() == 0 ==> r.fail == 0
                &&& n.commits.nodes@.len() > 0 ==> r.fail == status::failures(
                    n.commits.nodes@[0].commit.check_suites.nodes@,
                )
                &&& r.updated_at == opt_view(n.updated_at)
            }),
{
    let rows = rows_of(nodes);
    let sorted = stable_sort::<PrRow>(rows);
    assert(rows.contains(rows[i]));
    sorting_keeps_the_rows::<PrRow>(rows, rows[i]);
    let k = choose|k: int| 0 <= k < sorted.len() && sorted[k] == rows[i];
    assert(sorted[k] == row_of(nodes[i]));
}

/// The most recently updated pull request comes first: none is listed behind one
/// that was updated before it, and of two updated at once the newer is first.
pub proof fn the_most_recent_comes_first(nodes: Seq<PrNode>, i: int, j: int)
    requires
        0 <= i < j < nodes.len(),
    ensures
        ({
            let a = stable_sort::<PrRow>(rows_of(nodes))[i];
            let b = stable_sort::<PrRow>(rows_of(nodes))[j];
            &&& b.updated_at is Some ==> a.updated_at is Some
            &&& (a.updated_at matches Some(x) && b.updated_at matches Some(y) && rank_text(x, y)
                == Rank::Before) ==> false
            &&& a.updated_at == b.updated_at ==> a.number >= b.number
        }),
{
    let sorted = stable_sort::<PrRow>(rows_of(nodes));
    stable_sort_sorts::<PrRow>(rows_of(nodes));
    let a = sorted[i];
    let b = sorted[j];
    assert(<PrRow as Ranked>::rank(a, b) != Rank::After);
    let e = Seq::<char>::empty();
    let x = if let Some(t) = a.updated_at {
        t
    } else {
        e
    };
    let y = if let Some(t) = b.updated_at {
        t
    } else {
        e
    };
    crate::text::the_latest_comes_first(x, y, a.number, b.number);
}

/// Rows are kept one by one and in their order: those without a place in the
/// queue, and those that are no drafts.
pub proof fn rows_are_kept_one_by_one(a: Seq<PrRowView>, b: Seq<PrRowView>, r: PrRowView)
    ensures
        unqueued(a + b) == unqueued(a) + unqueued(b),
        unqueued(seq![r]) == if r.queue is Some {
            Seq::empty()
        } else {
            seq![r]
        },
        undrafted(a + b) == undrafted(a) + undrafted(b),
        undrafted(seq![r]) == if r.is_draft {
            Seq::empty()
        } else {
            seq![r]
        },
    decreases b.len(),
{
    reveal_with_fuel(unqueued, 2);
    reveal_with_fuel(undrafted, 2);
    let none = Seq::<PrRowView>::empty();
    assert(seq![r].drop_last() =~= none);
    assert(none.push(r) =~= seq![r]);
    if b.len() == 0 {
        assert(a + b =~= a);
        assert(unqueued(a) + unqueued(b) =~= unqueued(a));
        assert(undrafted(a) + undrafted(b) =~= undrafted(a));
    } else {
        let t = b.drop_last();
        assert((a + b).drop_last() =~= a + t);
        rows_are_kept_one_by_one(a, t, r);
        assert((unqueued(a) + unqueued(t)).push(b.last()) =~= unqueued(a) + unqueued(t).push(
            b.last(),
        ));
        assert((undrafted(a) + undrafted(t)).push(b.last()) =~= undrafted(a) + undrafted(t).push(
            b.last(),
        ));
    }
}

/// The rows that are built of open pull requests: as many as there are, and one
/// for each with its own values and the status that its fields come to.
pub proof fn built_rows_are_of_the_pull_requests(nodes: Vec<PrNode>, r: Vec<PrRow>, i: int)
    requires
        call_ensures(build_rows, (nodes,), r),
        0 <= i < nodes@.len(),
    ensures
        r@.len() == nodes@.len(),
        exists|k: int|
            0 <= k < r@.len() && ({
                let row = #[trigger] r@[k];
                let n = nodes@[i];
                &&& row.number == n.number
                &&& row.is_draft == n.is_draft
                &&& row.title@ == n.title@
                &&& row.url@ == n.url@
                &&& row.status == status::status_of_pr(n)
                &&& row.queue is Some <==> n.merge_queue_entry is Some
                &&& opt_view(row.updated_at) == opt_view(n.updated_at)
            }),
{
    let rows = rows_of(nodes@);
    let sorted = stable_sort::<PrRow>(rows);
    assert(rows_view(r@) == sorted);
    assert(rows.contains(rows[i]));
    sorting_keeps_the_rows::<PrRow>(rows, rows[i]);
    let k = choose|k: int| 0 <= k < sorted.len() && sorted[k] == rows[i];
    assert(rows_view(r@)[k] == r@[k]@);
    assert(r@[k]@ == row_of(nodes@[i]));
    assert(r@[k]@.queue is Some <==> r@[k].queue is Some);
}

/// A row shows its pull request: a mark exactly if it changed, its number with a
/// link to its page, its title, and the count of its failing suites, or a dash
/// where there is none.
pub proof fn a_row_shows_its_pull_request(r: PrRowView, ascii: bool, highlight: Set<i64>)
    ensures
        ({
            let c = cells_of_row(r, ascii, highlight);
            &&& c.len() == 6
            &&& c[0].style.bold <==> highlight.contains(r.number)
            &&& c[2].text == "#"@ + crate::text::dec_signed(r.number as int) && c[2].link == r.url
            &&& c[2].style.faint <==> r.is_draft
            &&& c[3].text == r.title
            &&& r.fail == 0 ==> c[5].text == "-"@
            &&& r.fail > 0 ==> c[5].text == dec(r.fail)
            &&& (ascii && (r.merge_state matches Some(s) && s != "DIRTY"@)) ==> c[4].text
                == r.merge_state->0
            &&& (ascii && r.merge_state is None) ==> c[4].text == "?"@
        }),
{
    reveal_strlit("?");
    reveal_strlit("DIRTY");
    assert("?"@.len() != "DIRTY"@.len());
}

/// Two rows with different statuses are told apart by what is drawn for them, and
/// two with the same are drawn alike.
pub proof fn a_row_shows_its_status(a: PrRowView, b: PrRowView, ascii: bool, highlight: Set<i64>)
    ensures
        cells_of_row(a, ascii, highlight)[1] == cells_of_row(b, ascii, highlight)[1] <==> a.status
            == b.status,
{
    let x = cells_of_row(a, ascii, highlight)[1];
    let y = cells_of_row(b, ascii, highlight)[1];
    if let (Some(s), Some(t)) = (a.status, b.status) {
        status::statuses_are_told_apart(s, t);
        assert(x.style.fg == Some(status::palette(s).1));
        assert(y.style.fg == Some(status::palette(t).1));
    }
}

/// The rows that are built have the most recently updated first, and of those
/// updated at once the one with the highest number.
pub proof fn built_rows_have_the_most_recent_first(
    nodes: Vec<PrNode>,
    r: Vec<PrRow>,
    i: int,
    j: int,
)
    requires
        call_ensures(build_rows, (nodes,), r),
        0 <= i < j < r@.len(),
    ensures
        r@[j].updated_at is Some ==> r@[i].updated_at is Some,
        (r@[i].updated_at matches Some(x) && r@[j].updated_at matches Some(y) && rank_text(x@, y@)
            == Rank::Before) ==> false,
        opt_view(r@[i].updated_at) == opt_view(r@[j].updated_at) ==> r@[i].number >= r@[j].number,
{
    let sorted = stable_sort::<PrRow>(rows_of(nodes@));
    stable_sort_sorts::<PrRow>(rows_of(nodes@));
    assert(rows_view(r@) == sorted);
    assert(r@.len() == sorted.len());
    assert(rows_view(r@)[i] == r@[i]@ && rows_view(r@)[j] == r@[j]@);
    the_most_recent_comes_first(nodes@, i, j);
}

} // verus!
