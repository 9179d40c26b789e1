//! The merge-queue view: rows, their order, and their table.

use crate::model::{login, login_of, QueueEntryNode};
use crate::canvas::{ellipsized, truncate};
use crate::order::{
    rows_view, rows_view_push, sort_rows, sorting_keeps_the_rows, stable_sort, stable_sort_sorts,
    Ranked,
};
use crate::render::{
    cell_of, cells_view, grid_view, grid_view_push, pr_cell, Cell, CellView, Table, TableView,
};
use crate::status::{self, in_color, in_faint, unstyled, Style, BLUE, YELLOW};
use crate::text::{
    compare_int, copy_opt, dec_signed, decimal_signed, opt_view, rank_int, same, Rank,
};
use crate::timefmt::{age_at, age_seen, Timestamp};
use vstd::prelude::*;

verus! {

/// A merge-queue entry.
#[derive(Debug, PartialEq, Eq)]
pub struct QueueRow {
    pub position: i64,
    pub number: i64,
    pub author: String,
    pub title: String,
    pub url: String,
    pub mine: bool,
    /// When the entry joined the queue.
    pub enqueued_at: Option<String>,
    /// When its merge commit started building; `None` when it is not building.
    pub build_started_at: Option<String>,
}

/// What a merge-queue row says.
pub struct QueueRowView {
    pub position: i64,
    pub number: i64,
    pub author: Seq<char>,
    pub title: Seq<char>,
    pub url: Seq<char>,
    pub mine: bool,
    pub enqueued_at: Option<Seq<char>>,
    pub build_started_at: Option<Seq<char>>,
}

impl View for QueueRow {
    type V = QueueRowView;

    open spec fn view(&self) -> QueueRowView {
        QueueRowView {
            position: self.position,
            number: self.number,
            author: self.author@,
            title: self.title@,
            url: self.url@,
            mine: self.mine,
            enqueued_at: opt_view(self.enqueued_at),
            build_started_at: opt_view(self.build_started_at),
        }
    }
}

impl Clone for QueueRow {
    fn clone(&self) -> (r: Self)
        ensures
            r@ == self@,
    {
        QueueRow {
            position: self.position,
            number: self.number,
            author: self.author.clone(),
            title: self.title.clone(),
            url: self.url.clone(),
            mine: self.mine,
            enqueued_at: copy_opt(&self.enqueued_at),
            build_started_at: copy_opt(&self.build_started_at),
        }
    }
}

/// Queue rows sort by position.
impl Ranked for QueueRow {
    open spec fn rank(a: QueueRowView, b: QueueRowView) -> Rank {
        rank_int(a.position as int, b.position as int)
    }

    proof fn rank_is_an_order(a: QueueRowView, b: QueueRowView, c: QueueRowView) {
    }

    fn compare(&self, other: &Self) -> (r: Rank) {
        compare_int(self.position, other.position)
    }
}

/// The row of a queue entry, to a viewer `me`. One without an author is nobody's.
pub open spec fn row_of(n: QueueEntryNode, me: Seq<char>) -> QueueRowView {
    QueueRowView {
        position: n.position,
        number: n.pull_request.number,
        author: login_of(n.pull_request.author),
        title: n.pull_request.title@,
        url: n.pull_request.url@,
        mine: n.pull_request.author matches Some(a) && a.login@ == me,
        enqueued_at: opt_view(n.enqueued_at),
        build_started_at: match n.head_commit {
            Some(c) => opt_view(c.committed_date),
            None => None,
        },
    }
}

/// The rows of queue entries, in the order of the entries.
pub open spec fn rows_of(nodes: Seq<QueueEntryNode>, me: Seq<char>) -> Seq<QueueRowView> {
    Seq::new(nodes.len(), |i: int| row_of(nodes[i], me))
}

/// Build rows in the order of their queue positions; `mine` flags own entries.
pub fn build_rows(nodes: Vec<QueueEntryNode>, me: &str) -> (r: Vec<QueueRow>)
    ensures
        rows_view(r@) == stable_sort::<QueueRow>(rows_of(nodes@, me@)),
{
    let mut rows: Vec<QueueRow> = Vec::new();
    let mut i: usize = 0;
    while i < nodes.len()
        invariant
            i <= nodes@.len(),
            rows_view(rows@) =~= rows_of(nodes@, me@).take(i as int),
        decreases nodes@.len() - i,
    {
        let n = &nodes[i];
        let author = login(&n.pull_request.author);
        let mine = match &n.pull_request.author {
            Some(a) => same(a.login.as_str(), me),
            None => false,
        };
        let build_started_at = match &n.head_commit {
            Some(c) => copy_opt(&c.committed_date),
            None => None,
        };
        let row = QueueRow {
            position: n.position,
            number: n.pull_request.number,
            author,
            title: n.pull_request.title.clone(),
            url: n.pull_request.url.clone(),
            mine,
            enqueued_at: copy_opt(&n.enqueued_at),
            build_started_at,
        };
        proof {
            assert(row@ == row_of(nodes@[i as int], me@));
            rows_view_push(rows@, row);
        }
        rows.push(row);
        i += 1;
    }
    proof {
        assert(rows_view(rows@) =~= rows_of(nodes@, me@));
    }
    sort_rows(rows)
}


/// Which rows of the queue are shown.
#[derive(Clone, Copy, Debug, PartialEq, Eq, Structural)]
pub enum VisibleRows {
    /// All of them.
    All,
    /// Those that are building, and mine.
    BuildingAndMine,
    /// Those that are building.
    Building,
}

impl VisibleRows {
    /// Whether a row is shown.
    pub open spec fn shows(self, r: QueueRowView) -> bool {
        match self {
            VisibleRows::All => true,
            VisibleRows::BuildingAndMine => r.build_started_at is Some || r.mine,
            VisibleRows::Building => r.build_started_at is Some,
        }
    }

    fn shows_row(self, r: &QueueRow) -> (b: bool)
        ensures
            b == self.shows(r@),
    {
        match self {
            VisibleRows::All => true,
            VisibleRows::BuildingAndMine => r.build_started_at.is_some() || r.mine,
            VisibleRows::Building => r.build_started_at.is_some(),
        }
    }

    /// The rows that are shown.
    pub fn rows(self, rows: &[QueueRow]) -> (r: Vec<QueueRow>)
        ensures
            rows_view(r@) == visible(rows_view(rows@), self),
    {
        let mut out: Vec<QueueRow> = Vec::new();
        let ghost all = rows_view(rows@);
        let mut i: usize = 0;
        proof {
            assert(all.take(0) =~= rows_view(out@));
        }
        while i < rows.len()
            invariant
                i <= rows@.len(),
                all == rows_view(rows@),
                rows_view(out@) == visible(all.take(i as int), self),
            decreases rows@.len() - i,
        {
            proof {
                assert(all.take(i + 1).drop_last() =~= all.take(i as int));
            }
            if self.shows_row(&rows[i]) {
                let row = rows[i].clone();
                proof {
                    rows_view_push(out@, row);
                }
                out.push(row);
            }
            i += 1;
        }
        proof {
            assert(all.take(i as int) =~= all);
        }
        out
    }

    /// How many rows are shown.
    pub fn count(self, rows: &[QueueRow]) -> (r: usize)
        ensures
            r == visible(rows_view(rows@), self).len(),
            r <= rows@.len(),
    {
        let ghost all = rows_view(rows@);
        let mut n: usize = 0;
        let mut i: usize = 0;
        proof {
            assert(all.take(0) =~= Seq::empty());
        }
        while i < rows.len()
            invariant
                i <= rows@.len(),
                n <= i,
                all == rows_view(rows@),
                n == visible(all.take(i as int), self).len(),
            decreases rows@.len() - i,
        {
            proof {
                assert(all.take(i + 1).drop_last() =~= all.take(i as int));
            }
            if self.shows_row(&rows[i]) {
                n += 1;
            }
            i += 1;
        }
        proof {
            assert(all.take(i as int) =~= all);
        }
        n
    }
}

/// The rows that are shown, in their order.
pub open spec fn visible(s: Seq<QueueRowView>, mode: VisibleRows) -> Seq<QueueRowView>
    decreases s.len(),
{
    if s.len() == 0 {
        s
    } else if mode.shows(s.last()) {
        visible(s.drop_last(), mode).push(s.last())
    } else {
        visible(s.drop_last(), mode)
    }
}

/// A narrower choice never shows more rows, and showing all shows every row.
pub proof fn a_narrower_choice_shows_no_more(s: Seq<QueueRowView>)
    ensures
        visible(s, VisibleRows::All) == s,
        visible(s, VisibleRows::BuildingAndMine).len() <= s.len(),
        visible(s, VisibleRows::Building).len() <= visible(s, VisibleRows::BuildingAndMine).len(),
    decreases s.len(),
{
    if s.len() > 0 {
        a_narrower_choice_shows_no_more(s.drop_last());
        assert(s.drop_last().push(s.last()) =~= s);
    }
}

/// Author logins are cut to this many columns.
pub const AUTHOR_WIDTH: usize = 16;

/// The style that sets an entry of mine apart.
pub open spec fn mine_style() -> Style {
    Style { bold: true, ..in_color(YELLOW) }
}

/// The cells of a queue row.
pub open spec fn cells_of_row(r: QueueRowView, ascii: bool, now: Timestamp) -> Seq<CellView> {
    let meta = if r.mine {
        mine_style()
    } else {
        in_faint()
    };
    seq![
        cell_of(" "@, unstyled()),
        cell_of(dec_signed(r.position as int), meta),
        pr_cell(
            r.number,
            r.url,
            if r.mine {
                mine_style()
            } else {
                in_color(BLUE)
            },
        ),
        cell_of(
            r.title,
            if r.mine {
                Style { bold: true, ..unstyled() }
            } else {
                unstyled()
            },
        ),
        cell_of(
            ellipsized(r.author, 16, ascii),
            if r.mine {
                mine_style()
            } else {
                unstyled()
            },
        ),
        cell_of(age_seen(now, r.enqueued_at), meta),
        cell_of(
            if r.build_started_at is Some {
                age_seen(now, r.build_started_at)
            } else {
                "\u{2014}"@
            },
            meta,
        ),
    ]
}

/// The table of the queue, as seen from a point in time. A blank first column
/// lines it up with the tables that lead with a change marker.
pub open spec fn table_of(rows: Seq<QueueRowView>, ascii: bool, now: Timestamp) -> TableView {
    TableView {
        header: seq![""@, "#"@, "PR"@, "TITLE"@, "AUTHOR"@, "WAIT"@, "BUILD"@],
        rows: Seq::new(rows.len(), |i: int| cells_of_row(rows[i], ascii, now)),
    }
}

fn row_cells(r: &QueueRow, ascii: bool, now: Timestamp) -> (out: Vec<Cell>)
    requires
        now.valid(),
    ensures
        cells_view(out@) == cells_of_row(r@, ascii, now),
{
    let hi = status::fg(YELLOW).bold();
    let (meta, pr, author_style, title) = if r.mine {
        (hi, hi, hi, Style::new().bold())
    } else {
        (Style::new().dimmed(), status::fg(BLUE), Style::new(), Style::new())
    };
    let author = truncate(r.author.as_str(), AUTHOR_WIDTH, ascii);
    let wait = age_at(now, &r.enqueued_at);
    let build = if r.build_started_at.is_some() {
        age_at(now, &r.build_started_at)
    } else {
        "\u{2014}".to_string()
    };
    let position = decimal_signed(r.position);
    let mut out: Vec<Cell> = Vec::new();
    out.push(Cell::plain(" "));
    out.push(Cell::styled(position.as_str(), meta));
    out.push(Cell::pr(r.number, r.url.as_str(), pr));
    out.push(Cell::styled(r.title.as_str(), title));
    out.push(Cell::styled(author.as_str(), author_style));
    out.push(Cell::styled(wait.as_str(), meta));
    out.push(Cell::styled(build.as_str(), meta));
    proof {
        assert(cells_view(out@) =~= cells_of_row(r@, ascii, now));
    }
    out
}

/// The table of the queue, as seen from `now`.
pub fn to_table_at(rows: &[QueueRow], ascii: bool, now: Timestamp) -> (r: Table)
    requires
        now.valid(),
    ensures
        r@ == table_of(rows_view(rows@), ascii, now),
        r@.wf(),
        r.rows@.len() == rows@.len(),
{
    let mut out: Vec<Vec<Cell>> = Vec::new();
    let ghost want = table_of(rows_view(rows@), ascii, now);
    let mut i: usize = 0;
    while i < rows.len()
        invariant
            i <= rows@.len(),
            now.valid(),
            want == table_of(rows_view(rows@), ascii, now),
            grid_view(out@) =~= want.rows.take(i as int),
        decreases rows@.len() - i,
    {
        let cells = row_cells(&rows[i], ascii, now);
        proof {
            grid_view_push(out@, cells);
        }
        out.push(cells);
        i += 1;
    }
    let t = Table { header: vec!["", "#", "PR", "TITLE", "AUTHOR", "WAIT", "BUILD"], rows: out };
    proof {
        assert(t@.header =~= want.header);
        assert(t@.rows =~= grid_view(out@));
        assert(t@.rows =~= want.rows);
    }
    t
}

/// The table of the queue, as seen from the current time.
pub fn to_table(rows: &[QueueRow], ascii: bool) -> (r: Table)
    ensures
        exists|now: Timestamp|
            crate::timefmt::clock_reading(now) && now.valid() && r@ == #[trigger] table_of(rows_view(rows@), ascii, now),
        r@.wf(),
{
    let now = crate::timefmt::now();
    to_table_at(rows, ascii, now)
}

/// Each entry of the queue has its row, and there are no others: with the entry's
/// own number, title, page and times, and mine exactly if its author is the viewer.
/// An entry without an author has the placeholder for one and is not mine.
pub proof fn each_entry_has_its_row(nodes: Seq<QueueEntryNode>, me: Seq<char>, i: int)
    requires
        0 <= i < nodes.len(),
    ensures
        stable_sort::<QueueRow>(rows_of(nodes, me)).len() == nodes.len(),
        exists|k: int|
            0 <= k < nodes.len() && ({
                let r = #[trigger] stable_sort::<QueueRow>(rows_of(nodes, me))[k];
                let n = nodes[i];
                &&& r.position == n.position
                &&& r.number == n.pull_request.number
                &&& r.title == n.pull_request.title@
                &&& r.url == n.pull_request.url@
                &&& r.mine <==> (n.pull_request.author matches Some(a) && a.login@ == me)
                &&& n.pull_request.author matches Some(a) ==> r.author == a.login@
                &&& n.pull_request.author is None ==> r.author == "ghost"@
                &&& r.enqueued_at == opt_view(n.enqueued_at)
                &&& n.head_commit matches Some(c) ==> r.build_started_at == opt_view(
                    c.committed_date,
                )
                &&& n.head_commit is None ==> r.build_started_at is None
            }),
{
    let rows = rows_of(nodes, me);
    let sorted = stable_sort::<QueueRow>(rows);
    assert(rows.contains(rows[i]));
    sorting_keeps_the_rows::<QueueRow>(rows, rows[i]);
    let k = choose|k: int| 0 <= k < sorted.len() && sorted[k] == rows[i];
    assert(sorted[k] == row_of(nodes[i], me));
}

/// The queue is listed from its head: positions never go down.
pub proof fn the_queue_is_listed_from_its_head(nodes: Seq<QueueEntryNode>, me: Seq<char>)
    ensures
        forall|i: int, j: int|
            0 <= i < j < nodes.len() ==> (#[trigger] stable_sort::<QueueRow>(
                rows_of(nodes, me),
            )[i]).position <= (#[trigger] stable_sort::<QueueRow>(rows_of(nodes, me))[j]).position,
{
    let sorted = stable_sort::<QueueRow>(rows_of(nodes, me));
    stable_sort_sorts::<QueueRow>(rows_of(nodes, me));
    assert forall|i: int, j: int| 0 <= i < j < nodes.len() implies (
    #[trigger] sorted[i]).position <= (#[trigger] sorted[j]).position by {
        assert(<QueueRow as Ranked>::rank(sorted[i], sorted[j]) != Rank::After);
    }
}

/// What is shown of a list is shown row by row and in its order: all of it, or
/// what builds or is mine, or what builds.
pub proof fn rows_are_shown_one_by_one(
    a: Seq<QueueRowView>,
    b: Seq<QueueRowView>,
    r: QueueRowView,
    mode: VisibleRows,
)
    ensures
        visible(a + b, mode) == visible(a, mode) + visible(b, mode),
        visible(seq![r], VisibleRows::All) == seq![r],
        visible(seq![r], VisibleRows::BuildingAndMine) == if r.build_started_at is Some || r.mine {
            seq![r]
        } else {
            Seq::empty()
        },
        visible(seq![r], VisibleRows::Building) == if r.build_started_at is Some {
            seq![r]
        } else {
            Seq::empty()
        },
    decreases b.len(),
{
    reveal_with_fuel(visible, 2);
    let none = Seq::<QueueRowView>::empty();
    assert(seq![r].drop_last() =~= none);
    assert(none.push(r) =~= seq![r]);
    if b.len() == 0 {
        assert(a + b =~= a);
        assert(visible(a, mode) + visible(b, mode) =~= visible(a, mode));
    } else {
        let t = b.drop_last();
        assert((a + b).drop_last() =~= a + t);
        rows_are_shown_one_by_one(a, t, r, mode);
        assert((visible(a, mode) + visible(t, mode)).push(b.last()) =~= visible(a, mode) + visible(
            t,
            mode,
        ).push(b.last()));
    }
}

/// The rows that are built of the queue: as many as entries, from its head, and
/// one for each entry with its own values, mine exactly if its author is the
/// viewer.
pub proof fn built_rows_are_of_the_queue(
    nodes: Vec<QueueEntryNode>,
    me: &str,
    r: Vec<QueueRow>,
    i: int,
    j: int,
)
    requires
        call_ensures(build_rows, (nodes, me), r),
        0 <= i < j < nodes@.len() || 0 <= i == j < nodes@.len(),
    ensures
        r@.len() == nodes@.len(),
        r@[i].position <= r@[j].position,
        exists|k: int|
            0 <= k < r@.len() && ({
                let row = #[trigger] r@[k];
                let n = nodes@[i];
                &&& row.position == n.position
                &&& row.number == n.pull_request.number
                &&& row.title@ == n.pull_request.title@
                &&& row.url@ == n.pull_request.url@
                &&& row.mine <==> (n.pull_request.author matches Some(a) && a.login@ == me@)
                &&& opt_view(row.enqueued_at) == opt_view(n.enqueued_at)
                &&& row.build_started_at is Some <==> (n.head_commit matches Some(c)
                    && c.committed_date is Some)
            }),
{
    let sorted = stable_sort::<QueueRow>(rows_of(nodes@, me@));
    assert(rows_view(r@) == sorted);
    each_entry_has_its_row(nodes@, me@, i);
    the_queue_is_listed_from_its_head(nodes@, me@);
    assert(r@.len() == sorted.len());
    assert forall|k: int| 0 <= k < r@.len() implies (#[trigger] r@[k])@ == sorted[k] by {
        assert(rows_view(r@)[k] == r@[k]@);
    }
    assert(r@[i]@ == sorted[i] && r@[j]@ == sorted[j]);
    rows_of_entries_are_there(nodes@, me@, i);
    let k = choose|k: int| 0 <= k < sorted.len() && #[trigger] sorted[k] == row_of(nodes@[i], me@);
    assert(r@[k]@ == sorted[k]);
}

proof fn rows_of_entries_are_there(nodes: Seq<QueueEntryNode>, me: Seq<char>, i: int)
    requires
        0 <= i < nodes.len(),
    ensures
        exists|k: int|
            0 <= k < stable_sort::<QueueRow>(rows_of(nodes, me)).len() && #[trigger] stable_sort::<
                QueueRow,
            >(rows_of(nodes, me))[k] == row_of(nodes[i], me),
{
    let rows = rows_of(nodes, me);
    assert(rows.contains(rows[i]));
    sorting_keeps_the_rows::<QueueRow>(rows, rows[i]);
}

/// A queue row shows its place, its number with a link to its page, its title, and
/// how long it waits. It shows how long it builds exactly if it builds, and a dash
/// else. A row of mine is set apart by its style, and no other is.
pub proof fn a_row_shows_its_entry(r: QueueRowView, ascii: bool, now: Timestamp)
    ensures
        ({
            let c = cells_of_row(r, ascii, now);
            &&& c.len() == 7
            &&& c[1].text == dec_signed(r.position as int)
            &&& c[2].text == "#"@ + dec_signed(r.number as int) && c[2].link == r.url
            &&& c[3].text == r.title
            &&& c[4].text == ellipsized(r.author, 16, ascii)
            &&& c[5].text == age_seen(now, r.enqueued_at)
            &&& r.build_started_at is Some ==> c[6].text == age_seen(now, r.build_started_at)
            &&& r.build_started_at is None ==> c[6].text == "\u{2014}"@
            &&& c[3].style.bold <==> r.mine
            &&& c[2].style.bold <==> r.mine
        }),
{
}

} // verus!
