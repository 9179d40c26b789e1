//! The dashboard as a whole: its sections, its two views, what stands at its
//! bottom, and the frame that holds them.

use crate::canvas::{
    keeping_itself, keeping_on, keeps_above, tinted, Canvas, Limits, Picture, Profile,
};
use crate::changes::Changes;
use crate::cli::Pane;
use crate::layout::{
    all_visible, body_h, body_height, bottom_bound, bottom_h, bottom_height, commits_shown,
    frame_of, height_bound, layout_of, limited_h, listed, prompts, queue_shown, responsive_layout,
    room_for, shipments_h, small_notice, surface_height, too_small_message, visible_are_fewer,
    Visibility,
};
use crate::merged::{self, capped, MergedRow, MergedRowView};
use crate::nav::{copy_rows, shown_targets, targets_visible};
use crate::order::rows_view;
use crate::prs::{self, without_queued, PrRow, PrRowView};
use crate::queue::{self, visible, QueueRow, QueueRowView};
use crate::render::{
    below, down, highlight_row, is_compact, paint_dim, paint_dim_at, paint_footer, paint_header,
    paint_help, paint_search_prompt, paint_table_aligned, paint_tabs, prompt_pen,
    required_width_of, row_limit, table_alignment, table_is_compact_aligned, table_required_width,
    table_views, title_within, with_dim, with_footer, with_help, with_prompt, with_section_header,
    with_table, with_tabs, Table, TableAlignment, TableView, MIN_WIDTH, OUTPUT_WIDTH, ROW_INDENT,
};
use crate::reviews::{self, ReviewRowView, ReviewedMergedView};
use crate::sections::{Sections, SectionsView};
use crate::shipments::{
    as_int, commits_caret, commits_span, paint_commits, with_commits,
};
use crate::status::{Rgb, GREEN, LAVENDER, MAUVE, PEACH, SURFACE};
use crate::text::{dec, decimal, opt_str_view};
use crate::timefmt::{eta, eta_of, Timestamp};
use crate::ui::Ui;
use vstd::prelude::*;

verus! {

// ---------------------------------------------------------------------------
// A section
// ---------------------------------------------------------------------------

/// How many rows a section takes: a header, a table or a placeholder, a row that
/// counts what is hidden, and a blank row.
pub open spec fn section_span(table: Option<TableView>, hidden: nat) -> nat {
    2 + (match table {
        Some(t) => t.rows.len() + 1,
        None => if hidden == 0 {
            1nat
        } else {
            0
        },
    }) + if hidden > 0 {
        1nat
    } else {
        0
    }
}

/// The picture once a section is painted.
pub open spec fn with_section(
    p: Picture,
    title: Seq<char>,
    accent: Rgb,
    count: nat,
    hidden: nat,
    note: Option<Seq<char>>,
    empty_msg: Seq<char>,
    table: Option<TableView>,
    title_w: nat,
    ascii: bool,
    top: int,
) -> Picture {
    let head = with_section_header(p, title, accent, Some(dec(count)), note, ascii, top);
    let body = match table {
        Some(t) => with_table(head, t, title_w, ascii, down(top, 1)),
        None => if hidden == 0 {
            with_dim(head, empty_msg, ROW_INDENT as int, down(top, 1))
        } else {
            head
        },
    };
    if hidden > 0 {
        with_dim(
            body,
            "+"@ + dec(hidden) + " hidden"@,
            ROW_INDENT as int,
            down(top, section_span(table, hidden) - 2),
        )
    } else {
        body
    }
}

/// What an optional table says.
pub open spec fn opt_table(t: Option<&Table>) -> Option<TableView> {
    match t {
        Some(x) => Some(x@),
        None => None,
    }
}

/// Paint a section from row `top` on: a header with the full count and perhaps a
/// note, then its table or, when it is empty, a placeholder. A section with
/// hidden rows says how many. Returns the next free row.
pub fn paint_section(
    s: &mut Canvas,
    title: &str,
    accent: Rgb,
    count: usize,
    hidden: usize,
    note: Option<&str>,
    empty_msg: &str,
    table: Option<&Table>,
    alignment: &TableAlignment,
    ascii: bool,
    top: u16,
) -> (r: u16)
    requires
        table matches Some(t) ==> t@.wf(),
    ensures
        final(s)@ == with_section(
            old(s)@,
            title@,
            accent,
            count as nat,
            hidden as nat,
            opt_str_view(note),
            empty_msg@,
            opt_table(table),
            alignment.title as nat,
            ascii,
            top as int,
        ),
        final(s)@.limits == old(s)@.limits,
        keeps_above(old(s)@, final(s)@, top as int),
        r == down(top as int, section_span(opt_table(table), hidden as nat) as int),
{
    broadcast use keeping_on;

    let number = decimal(count as u128);
    let y = paint_header(s, title, accent, Some(number.as_str()), note, ascii, top);
    let y = match table {
        Some(t) => paint_table_aligned(s, t, alignment, ascii, y),
        None => if hidden == 0 {
            paint_dim_at(s, empty_msg, ROW_INDENT, y)
        } else {
            y
        },
    };
    let y = if hidden > 0 {
        let mut text = "+".to_string();
        let n = decimal(hidden as u128);
        text.append(n.as_str());
        text.append(" hidden");
        paint_dim_at(s, text.as_str(), ROW_INDENT, y)
    } else {
        y
    };
    below(y, 1)
}

// ---------------------------------------------------------------------------
// The tables of a view
// ---------------------------------------------------------------------------

/// Whether titles of one of the tables are cut.
pub open spec fn any_compact(l: Limits, tables: Seq<TableView>, title: nat) -> bool {
    exists|i: int| 0 <= i < tables.len() && is_compact(l, #[trigger] tables[i], title)
}

/// The width that all the tables need besides their titles.
pub open spec fn most_required(l: Limits, tables: Seq<TableView>) -> nat
    decreases tables.len(),
{
    if tables.len() == 0 {
        0
    } else {
        crate::render::larger(
            most_required(l, tables.drop_last()),
            required_width_of(l, tables.last()),
        )
    }
}

/// How the tables line up, whether that cuts titles, and the width they need.
pub fn table_state(s: &Canvas, tables: &Vec<&Table>) -> (r: (TableAlignment, bool, u16))
    ensures
        r.0.title == title_within(s@.limits, table_views(tables@), row_limit(s@.limits)),
        r.1 == any_compact(s@.limits, table_views(tables@), r.0.title as nat),
        r.2 == most_required(s@.limits, table_views(tables@)),
{
    let alignment = table_alignment(s, tables);
    let ghost l = s@.limits;
    let ghost all = table_views(tables@);
    let mut compact = false;
    let mut required: u16 = 0;
    let mut i: usize = 0;
    proof {
        assert(all.take(0) =~= Seq::empty());
    }
    while i < tables.len()
        invariant
            i <= tables@.len(),
            l == s@.limits,
            all == table_views(tables@),
            compact == exists|k: int|
                0 <= k < i && is_compact(l, #[trigger] all[k], alignment.title as nat),
            required == most_required(l, all.take(i as int)),
        decreases tables@.len() - i,
    {
        let t = tables[i];
        proof {
            assert(all[i as int] == t@);
            assert(all.take(i + 1).drop_last() =~= all.take(i as int));
        }
        if table_is_compact_aligned(s, t, &alignment) {
            compact = true;
        }
        let w = table_required_width(s, t);
        if w > required {
            required = w;
        }
        i += 1;
    }
    proof {
        assert(all.take(i as int) =~= all);
    }
    (alignment, compact, required)
}

/// A list of one table or of none.
pub open spec fn table_list(t: Option<TableView>) -> Seq<TableView> {
    match t {
        Some(x) => seq![x],
        None => Seq::empty(),
    }
}

fn add_table<'a>(tables: &mut Vec<&'a Table>, t: &'a Option<Table>)
    ensures
        table_views(final(tables)@) == table_views(old(tables)@) + table_list(
            opt_table(
                match *t {
                    Some(x) => Some(&x),
                    None => None,
                },
            ),
        ),
{
    let ghost before = table_views(tables@);
    if let Some(x) = t {
        tables.push(x);
        proof {
            assert(table_views(tables@) =~= before + seq![x@]);
        }
    } else {
        proof {
            assert(before + Seq::<TableView>::empty() =~= before);
        }
    }
}

/// The part of a selection that falls on `n` rows from `from` on.
pub open spec fn selected_in(selected: Option<int>, from: int, n: int) -> Option<int> {
    match selected {
        Some(k) => if from <= k < from + n {
            Some(k - from)
        } else {
            None
        },
        None => None,
    }
}

/// The part of a selection that falls behind the first `from` rows.
pub open spec fn selected_after(selected: Option<int>, from: int) -> Option<int> {
    match selected {
        Some(k) => if k >= from {
            Some(k - from)
        } else {
            None
        },
        None => None,
    }
}

/// The row of a table's `local`-th row, in a section painted from row `top` on.
pub open spec fn caret_at(top: int, local: Option<int>) -> Option<int> {
    match local {
        Some(k) => Some(down(top, k + 2)),
        None => None,
    }
}

fn caret_row(top: u16, local: usize) -> (r: u16)
    ensures
        r == down(top as int, local + 2),
{
    below(below(top, 2), local)
}

/// The sections that a selection falls on, by the numbers of their rows: the
/// open pull requests, the queue, the merged ones, and what is left.
pub fn mine_selection(selected: Option<usize>, prs: usize, queue: usize, merged: usize) -> (r: (
    Option<usize>,
    Option<usize>,
    Option<usize>,
    Option<usize>,
))
    ensures
        as_int(r.0) == selected_in(as_int(selected), 0, prs as int),
        as_int(r.1) == selected_in(as_int(selected), prs as int, queue as int),
        as_int(r.2) == selected_in(as_int(selected), prs + queue, merged as int),
        as_int(r.3) == selected_after(as_int(selected), prs + queue + merged),
{
    match selected {
        None => (None, None, None, None),
        Some(k) => {
            if k < prs {
                return (Some(k), None, None, None);
            }
            let k = k - prs;
            if k < queue {
                return (None, Some(k), None, None);
            }
            let k = k - queue;
            if k < merged {
                return (None, None, Some(k), None);
            }
            (None, None, None, Some(k - merged))
        },
    }
}

/// What painting came to: the picture, the next free row, the row of the
/// selection, whether titles are cut, and the width that is needed.
pub struct Painted {
    pub picture: Picture,
    pub next: int,
    pub caret: Option<int>,
    pub compact: bool,
    pub required: nat,
}

/// A picture and the next free row of it.
pub struct Stage {
    pub picture: Picture,
    pub y: int,
}

/// The first of two.
pub open spec fn first_of(a: Option<int>, b: Option<int>) -> Option<int> {
    if a is Some {
        a
    } else {
        b
    }
}

// ---------------------------------------------------------------------------
// My view
// ---------------------------------------------------------------------------

/// The open pull requests that are shown.
pub open spec fn prs_rows(s: SectionsView, v: Visibility) -> Option<Seq<PrRowView>> {
    if s.prs is Some && v.prs {
        Some(listed(s, v))
    } else {
        None
    }
}

/// The queue rows that are shown.
pub open spec fn queue_rows(s: SectionsView, v: Visibility) -> Option<Seq<QueueRowView>> {
    match (s.queue, v.queue) {
        (Some(rows), Some(mode)) => Some(visible(rows, mode)),
        _ => None,
    }
}

/// The merged rows that are shown.
pub open spec fn merged_rows(s: SectionsView, v: Visibility) -> Option<Seq<MergedRowView>> {
    match (s.merged, v.merged) {
        (Some(rows), Some(n)) => Some(capped(rows, n as nat)),
        _ => None,
    }
}

/// How many rows there are.
pub open spec fn row_count<A>(rows: Option<Seq<A>>) -> nat {
    match rows {
        Some(r) => r.len(),
        None => 0,
    }
}

/// How a view is to be painted: in ASCII or not, what changed, and the time.
pub struct Look {
    pub ascii: bool,
    pub status_changed: Set<i64>,
    pub newly_merged: Set<i64>,
    pub now: Timestamp,
}

/// The tables of my view; a section without rows has none.
pub struct MineTables {
    pub prs: Option<TableView>,
    pub queue: Option<TableView>,
    pub merged: Option<TableView>,
}

pub open spec fn mine_tables(s: SectionsView, v: Visibility, look: Look) -> MineTables {
    MineTables {
        prs: if row_count(prs_rows(s, v)) > 0 {
            Some(prs::table_of(prs_rows(s, v)->0, look.ascii, look.status_changed))
        } else {
            None
        },
        queue: if row_count(queue_rows(s, v)) > 0 {
            Some(queue::table_of(queue_rows(s, v)->0, look.ascii, look.now))
        } else {
            None
        },
        merged: if row_count(merged_rows(s, v)) > 0 {
            Some(
                merged::table_of(merged_rows(s, v)->0, look.ascii, look.newly_merged, look.now),
            )
        } else {
            None
        },
    }
}

impl MineTables {
    /// The tables that there are, from the top.
    pub open spec fn list(self) -> Seq<TableView> {
        table_list(self.prs) + table_list(self.queue) + table_list(self.merged)
    }
}

/// The estimate beside the queue's header.
pub open spec fn eta_note(secs: Option<i64>) -> Option<Seq<char>> {
    match secs {
        Some(n) => Some(
            "~"@ + eta_of(
                if n < 0 {
                    0
                } else {
                    n as int
                },
            ) + " to merge"@,
        ),
        None => None,
    }
}

/// After the open pull requests.
pub open spec fn prs_stage(
    st: Stage,
    s: SectionsView,
    v: Visibility,
    t: MineTables,
    title_w: nat,
    ascii: bool,
) -> Stage {
    match prs_rows(s, v) {
        Some(rows) => Stage {
            picture: with_section(
                st.picture,
                "My open PRs"@,
                GREEN,
                rows.len(),
                0,
                None,
                "No open PRs."@,
                t.prs,
                title_w,
                ascii,
                st.y,
            ),
            y: down(st.y, section_span(t.prs, 0) as int),
        },
        None => st,
    }
}

/// After the queue.
pub open spec fn queue_stage(
    st: Stage,
    s: SectionsView,
    v: Visibility,
    t: MineTables,
    title_w: nat,
    ascii: bool,
) -> Stage {
    match queue_rows(s, v) {
        Some(rows) => {
            let total = row_count(s.queue);
            let hidden = (total - rows.len()) as nat;
            Stage {
                picture: with_section(
                    st.picture,
                    "Merge Queue"@,
                    PEACH,
                    total,
                    hidden,
                    eta_note(s.queue_next_eta),
                    "No merge queue."@,
                    t.queue,
                    title_w,
                    ascii,
                    st.y,
                ),
                y: down(st.y, section_span(t.queue, hidden) as int),
            }
        },
        None => st,
    }
}

/// After the merged pull requests.
pub open spec fn merged_stage(
    st: Stage,
    s: SectionsView,
    v: Visibility,
    t: MineTables,
    title_w: nat,
    ascii: bool,
) -> Stage {
    match merged_rows(s, v) {
        Some(rows) => {
            let total = row_count(s.merged);
            let hidden = (total - rows.len()) as nat;
            Stage {
                picture: with_section(
                    st.picture,
                    "My merged PRs"@,
                    MAUVE,
                    total,
                    hidden,
                    None,
                    "No recent merged PRs."@,
                    t.merged,
                    title_w,
                    ascii,
                    st.y,
                ),
                y: down(st.y, section_span(t.merged, hidden) as int),
            }
        },
        None => st,
    }
}

/// My view: the open pull requests, the queue, the merged pull requests, and the
/// shipments, as far as each is shown. A canvas that is too narrow for the
/// columns stays as it is.
pub open spec fn mine_painted(
    p: Picture,
    s: SectionsView,
    selected: Option<int>,
    v: Visibility,
    look: Look,
    top: int,
) -> Painted {
    let l = p.limits;
    let t = mine_tables(s, v, look);
    let title_w = title_within(l, t.list(), row_limit(l));
    let required = most_required(l, t.list());
    let compact = any_compact(l, t.list(), title_w);
    let np = row_count(prs_rows(s, v)) as int;
    let nq = row_count(queue_rows(s, v)) as int;
    let nm = row_count(merged_rows(s, v)) as int;
    if l.width < required {
        Painted { picture: p, next: top, caret: None, compact, required }
    } else {
        let a = Stage { picture: p, y: top };
        let b = prs_stage(a, s, v, t, title_w, look.ascii);
        let c = queue_stage(b, s, v, t, title_w, look.ascii);
        let d = merged_stage(c, s, v, t, title_w, look.ascii);
        let tables_caret = first_of(
            caret_at(a.y, selected_in(selected, 0, np)),
            first_of(
                caret_at(b.y, selected_in(selected, np, nq)),
                caret_at(c.y, selected_in(selected, np + nq, nm)),
            ),
        );
        match commits_shown(s, v) {
            Some(stats) => Painted {
                picture: with_commits(d.picture, stats, look.ascii, look.now, d.y),
                next: down(d.y, commits_span(stats) as int + 1),
                caret: first_of(
                    tables_caret,
                    commits_caret(stats, selected_after(selected, np + nq + nm), d.y),
                ),
                compact,
                required,
            },
            None => Painted {
                picture: d.picture,
                next: d.y,
                caret: tables_caret,
                compact,
                required,
            },
        }
    }
}

/// What changed, and the rest that painting goes by.
pub open spec fn look_of(changes: Changes, ascii: bool, now: Timestamp) -> Look {
    Look {
        ascii,
        status_changed: changes.status_changed@,
        newly_merged: changes.newly_merged@,
        now,
    }
}

fn rows_of_prs(sections: &Sections, visible: Visibility) -> (r: Option<Vec<PrRow>>)
    ensures
        crate::sections::opt_rows(r) == prs_rows(sections@, visible),
{
    match &sections.prs {
        Some(rows) => if !visible.prs {
            None
        } else if visible.queue.is_some() {
            Some(without_queued(copy_rows(rows)))
        } else {
            Some(copy_rows(rows))
        },
        None => None,
    }
}

fn rows_of_queue(sections: &Sections, visible: Visibility) -> (r: Option<Vec<QueueRow>>)
    ensures
        crate::sections::opt_rows(r) == queue_rows(sections@, visible),
        r matches Some(v) ==> v@.len() <= row_count(sections@.queue),
{
    match (&sections.queue, visible.queue) {
        (Some(rows), Some(mode)) => {
            proof {
                visible_are_fewer(rows_view(rows@), mode);
            }
            let out = mode.rows(rows.as_slice());
            assert(rows_view(out@).len() == out@.len());
            Some(out)
        },
        _ => None,
    }
}

fn rows_of_merged(sections: &Sections, visible: Visibility) -> (r: Option<Vec<MergedRow>>)
    ensures
        crate::sections::opt_rows(r) == merged_rows(sections@, visible),
        r matches Some(v) ==> v@.len() <= row_count(sections@.merged),
{
    match (&sections.merged, visible.merged) {
        (Some(rows), Some(n)) => {
            let mut out: Vec<MergedRow> = Vec::new();
            let ghost want = capped(rows_view(rows@), n as nat);
            let mut i: usize = 0;
            while i < rows.len() && i < n
                invariant
                    i <= rows@.len(),
                    i <= n,
                    want == capped(rows_view(rows@), n as nat),
                    rows_view(out@) =~= want.take(i as int),
                decreases rows@.len() - i,
            {
                let row = rows[i].clone();
                proof {
                    crate::order::rows_view_push(out@, row);
                }
                out.push(row);
                i += 1;
            }
            proof {
                assert(rows_view(out@) =~= want);
                assert(rows_view(out@).len() == out@.len());
            }
            Some(out)
        },
        _ => None,
    }
}

/// What an owned table says.
pub open spec fn own_table(t: Option<Table>) -> Option<TableView> {
    match t {
        Some(x) => Some(x@),
        None => None,
    }
}

fn len_of<T>(rows: &Option<Vec<T>>) -> (r: usize)
    ensures
        r == match *rows {
            Some(v) => v@.len(),
            None => 0,
        },
{
    match rows {
        Some(v) => v.len(),
        None => 0,
    }
}

fn note_of(secs: Option<i64>) -> (r: Option<String>)
    ensures
        crate::text::opt_view(r) == eta_note(secs),
{
    match secs {
        Some(n) => {
            let mut text = "~".to_string();
            let t = eta(
                if n < 0 {
                    0
                } else {
                    n as u64
                },
            );
            text.append(t.as_str());
            text.append(" to merge");
            Some(text)
        },
        None => None,
    }
}

fn caret_or(caret: Option<u16>, top: u16, local: Option<usize>) -> (r: Option<u16>)
    ensures
        row_of(r) == first_of(row_of(caret), caret_at(top as int, as_int(local))),
{
    match caret {
        Some(y) => Some(y),
        None => match local {
            Some(k) => Some(caret_row(top, k)),
            None => None,
        },
    }
}

/// A row as a mathematical one.
pub open spec fn row_of(r: Option<u16>) -> Option<int> {
    match r {
        Some(y) => Some(y as int),
        None => None,
    }
}

/// The tables of my view, and how many rows each section shows.
struct MineParts {
    prs: Option<Table>,
    queue: Option<Table>,
    merged: Option<Table>,
    prs_shown: Option<usize>,
    queue_shown: Option<usize>,
    merged_shown: Option<usize>,
}

spec fn opt_count<A>(rows: Option<Seq<A>>) -> Option<int> {
    match rows {
        Some(r) => Some(r.len() as int),
        None => None,
    }
}

fn opt_len<T>(rows: &Option<Vec<T>>) -> (r: Option<usize>)
    ensures
        as_int(r) == match *rows {
            Some(v) => Some(v@.len() as int),
            None => None,
        },
{
    match rows {
        Some(v) => Some(v.len()),
        None => None,
    }
}

fn or_none(n: Option<usize>) -> (r: usize)
    ensures
        r == match n {
            Some(k) => k as int,
            None => 0,
        },
{
    match n {
        Some(k) => k,
        None => 0,
    }
}

fn mine_parts(
    sections: &Sections,
    changes: &Changes,
    ascii: bool,
    visible: Visibility,
    now: Timestamp,
) -> (r: MineParts)
    requires
        now.valid(),
    ensures
        ({
            let t = mine_tables(sections@, visible, look_of(*changes, ascii, now));
            &&& own_table(r.prs) == t.prs
            &&& own_table(r.queue) == t.queue
            &&& own_table(r.merged) == t.merged
        }),
        r.prs matches Some(t) ==> t@.wf(),
        r.queue matches Some(t) ==> t@.wf(),
        r.merged matches Some(t) ==> t@.wf(),
        as_int(r.prs_shown) == opt_count(prs_rows(sections@, visible)),
        as_int(r.queue_shown) == opt_count(queue_rows(sections@, visible)),
        as_int(r.merged_shown) == opt_count(merged_rows(sections@, visible)),
        r.queue_shown matches Some(n) ==> n <= row_count(sections@.queue),
        r.merged_shown matches Some(n) ==> n <= row_count(sections@.merged),
{
    let open = rows_of_prs(sections, visible);
    let queued = rows_of_queue(sections, visible);
    let done = rows_of_merged(sections, visible);
    let prs = match &open {
        Some(rows) => if rows.len() > 0 {
            Some(prs::to_table(rows.as_slice(), ascii, &changes.status_changed))
        } else {
            None
        },
        None => None,
    };
    let queue = match &queued {
        Some(rows) => if rows.len() > 0 {
            Some(queue::to_table_at(rows.as_slice(), ascii, now))
        } else {
            None
        },
        None => None,
    };
    let merged = match &done {
        Some(rows) => if rows.len() > 0 {
            Some(merged::to_table_at(rows.as_slice(), ascii, &changes.newly_merged, now))
        } else {
            None
        },
        None => None,
    };
    MineParts {
        prs,
        queue,
        merged,
        prs_shown: opt_len(&open),
        queue_shown: opt_len(&queued),
        merged_shown: opt_len(&done),
    }
}

/// Paint my view from row `top` on. Each section that is shown has a header with
/// its full count; an empty one follows it with a placeholder, and a partial one
/// ends with a count of what is hidden. Returns the next free row, the row of
/// the selection, whether titles are cut, and the width that the columns need.
#[verifier::rlimit(30)]
pub fn paint_mine(
    s: &mut Canvas,
    sections: &Sections,
    changes: &Changes,
    selected: Option<usize>,
    ascii: bool,
    visible: Visibility,
    now: Timestamp,
    top: u16,
) -> (r: (u16, Option<u16>, bool, u16))
    requires
        now.valid(),
    ensures
        final(s)@.limits == old(s)@.limits,
        keeps_above(old(s)@, final(s)@, top as int),
        r.1 matches Some(row) ==> row >= top,
        (Painted {
            picture: final(s)@,
            next: r.0 as int,
            caret: row_of(r.1),
            compact: r.2,
            required: r.3 as nat,
        }) == mine_painted(
            old(s)@,
            sections@,
            as_int(selected),
            visible,
            look_of(*changes, ascii, now),
            top as int,
        ),
{
    proof {
        keeping_itself(s@, top as int);
    }
    let ghost p = s@;
    let ghost look = look_of(*changes, ascii, now);
    let ghost sv = sections@;
    let ghost t = mine_tables(sv, visible, look);
    let parts = mine_parts(sections, changes, ascii, visible, now);
    let np = or_none(parts.prs_shown);
    let nq = or_none(parts.queue_shown);
    let nm = or_none(parts.merged_shown);
    let mut tables: Vec<&Table> = Vec::new();
    proof {
        assert(table_views(tables@) =~= Seq::empty());
    }
    add_table(&mut tables, &parts.prs);
    add_table(&mut tables, &parts.queue);
    add_table(&mut tables, &parts.merged);
    proof {
        assert(table_views(tables@) =~= t.list());
    }
    let (alignment, compact, required) = table_state(s, &tables);
    if s.width() < required {
        return (top, None, compact, required);
    }
    let (prs_sel, queue_sel, merged_sel, ship_sel) = mine_selection(selected, np, nq, nm);
    let ghost title_w = alignment.title as nat;
    let ghost a = Stage { picture: p, y: top as int };
    let ghost b = prs_stage(a, sv, visible, t, title_w, ascii);
    let ghost c = queue_stage(b, sv, visible, t, title_w, ascii);
    let ghost d = merged_stage(c, sv, visible, t, title_w, ascii);
    let mut y = top;
    let mut caret: Option<u16> = caret_or(None, y, prs_sel);
    if parts.prs_shown.is_some() {
        y = paint_section(
            s,
            "My open PRs",
            GREEN,
            np,
            0,
            None,
            "No open PRs.",
            parts.prs.as_ref(),
            &alignment,
            ascii,
            y,
        );
    }
    proof {
        assert(s@ == b.picture);
        assert(y == b.y);
        assert(keeps_above(p, b.picture, top as int));
    }
    caret = caret_or(caret, y, queue_sel);
    if parts.queue_shown.is_some() {
        let note = note_of(sections.queue_next_eta);
        let total = len_of(&sections.queue);
        y = paint_section(
            s,
            "Merge Queue",
            PEACH,
            total,
            total - nq,
            match &note {
                Some(n) => Some(n.as_str()),
                None => None,
            },
            "No merge queue.",
            parts.queue.as_ref(),
            &alignment,
            ascii,
            y,
        );
    }
    proof {
        assert(s@ == c.picture);
        assert(y == c.y);
        if parts.queue_shown is Some {
            keeping_on(p, b.picture, c.picture, top as int, b.y);
        }
    }
    caret = caret_or(caret, y, merged_sel);
    if parts.merged_shown.is_some() {
        let total = len_of(&sections.merged);
        y = paint_section(
            s,
            "My merged PRs",
            MAUVE,
            total,
            total - nm,
            None,
            "No recent merged PRs.",
            parts.merged.as_ref(),
            &alignment,
            ascii,
            y,
        );
    }
    proof {
        assert(s@ == d.picture);
        assert(y == d.y);
        if parts.merged_shown is Some {
            keeping_on(p, c.picture, d.picture, top as int, c.y);
        }
    }
    if visible.shipments {
        if let Some(stats) = &sections.commits {
            let (next, ship_caret) = paint_commits(s, stats, ship_sel, ascii, now, y);
            proof {
                keeping_on(p, d.picture, s@, top as int, d.y);
            }
            y = below(next, 1);
            if caret.is_none() {
                caret = ship_caret;
            }
        }
    }
    (y, caret, compact, required)
}


// ---------------------------------------------------------------------------
// The reviews
// ---------------------------------------------------------------------------

/// The open reviews that are shown.
pub open spec fn review_rows(s: SectionsView, v: Visibility) -> Option<Seq<ReviewRowView>> {
    if v.reviews {
        s.reviews
    } else {
        None
    }
}

/// The reviewed and merged pull requests that are shown.
pub open spec fn reviewed_rows(s: SectionsView, v: Visibility) -> Option<Seq<ReviewedMergedView>> {
    if v.reviewed_merged {
        s.reviewed_merged
    } else {
        None
    }
}

/// The table of the open reviews.
pub open spec fn reviews_table(
    s: SectionsView,
    v: Visibility,
    ascii: bool,
    now: Timestamp,
) -> Option<TableView> {
    if row_count(review_rows(s, v)) > 0 {
        Some(reviews::open_table_of(review_rows(s, v)->0, ascii, now))
    } else {
        None
    }
}

/// The table of the reviewed and merged pull requests.
pub open spec fn reviewed_table(
    s: SectionsView,
    v: Visibility,
    ascii: bool,
    now: Timestamp,
) -> Option<TableView> {
    if row_count(reviewed_rows(s, v)) > 0 {
        Some(reviews::merged_table_of(reviewed_rows(s, v)->0, ascii, now))
    } else {
        None
    }
}

/// After the open reviews.
pub open spec fn reviews_stage(
    st: Stage,
    rows: Option<Seq<ReviewRowView>>,
    table: Option<TableView>,
    title_w: nat,
    ascii: bool,
) -> Stage {
    match rows {
        Some(r) => Stage {
            picture: with_section(
                st.picture,
                "Reviews"@,
                LAVENDER,
                r.len(),
                0,
                None,
                "No PRs to review."@,
                table,
                title_w,
                ascii,
                st.y,
            ),
            y: down(st.y, section_span(table, 0) as int),
        },
        None => st,
    }
}

/// After the reviewed and merged pull requests.
pub open spec fn reviewed_stage(
    st: Stage,
    rows: Option<Seq<ReviewedMergedView>>,
    table: Option<TableView>,
    title_w: nat,
    ascii: bool,
) -> Stage {
    match rows {
        Some(r) => Stage {
            picture: with_section(
                st.picture,
                "Reviewed & merged"@,
                MAUVE,
                r.len(),
                0,
                None,
                "No reviewed PRs merged recently."@,
                table,
                title_w,
                ascii,
                st.y,
            ),
            y: down(st.y, section_span(table, 0) as int),
        },
        None => st,
    }
}

/// The view of the reviews: the open ones, then the merged ones. A canvas that is
/// too narrow for the columns stays as it is.
pub open spec fn reviews_painted(
    p: Picture,
    s: SectionsView,
    selected: Option<int>,
    v: Visibility,
    ascii: bool,
    now: Timestamp,
    top: int,
) -> Painted {
    let l = p.limits;
    let open = reviews_table(s, v, ascii, now);
    let done = reviewed_table(s, v, ascii, now);
    let tables = table_list(open) + table_list(done);
    let title_w = title_within(l, tables, row_limit(l));
    let required = most_required(l, tables);
    let compact = any_compact(l, tables, title_w);
    let nr = row_count(review_rows(s, v)) as int;
    let nm = row_count(reviewed_rows(s, v)) as int;
    if l.width < required {
        Painted { picture: p, next: top, caret: None, compact, required }
    } else {
        let a = Stage { picture: p, y: top };
        let b = reviews_stage(a, review_rows(s, v), open, title_w, ascii);
        let c = reviewed_stage(b, reviewed_rows(s, v), done, title_w, ascii);
        Painted {
            picture: c.picture,
            next: c.y,
            caret: first_of(
                caret_at(a.y, selected_in(selected, 0, nr)),
                caret_at(b.y, selected_in(selected, nr, nm)),
            ),
            compact,
            required,
        }
    }
}

/// Paint the reviews from row `top` on. Returns the next free row, the row of the
/// selection, whether titles are cut, and the width that the columns need.
#[verifier::rlimit(30)]
pub fn paint_reviews(
    s: &mut Canvas,
    sections: &Sections,
    selected: Option<usize>,
    ascii: bool,
    visible: Visibility,
    now: Timestamp,
    top: u16,
) -> (r: (u16, Option<u16>, bool, u16))
    requires
        now.valid(),
    ensures
        final(s)@.limits == old(s)@.limits,
        keeps_above(old(s)@, final(s)@, top as int),
        r.1 matches Some(row) ==> row >= top,
        (Painted {
            picture: final(s)@,
            next: r.0 as int,
            caret: row_of(r.1),
            compact: r.2,
            required: r.3 as nat,
        }) == reviews_painted(
            old(s)@,
            sections@,
            as_int(selected),
            visible,
            ascii,
            now,
            top as int,
        ),
{
    broadcast use keeping_on;

    proof {
        keeping_itself(s@, top as int);
    }
    let ghost sv = sections@;
    let nr = if visible.reviews {
        len_of(&sections.reviews)
    } else {
        0
    };
    let nm = if visible.reviewed_merged {
        len_of(&sections.reviewed_merged)
    } else {
        0
    };
    let open_table = match &sections.reviews {
        Some(rows) => if nr > 0 {
            Some(reviews::open_to_table_at(rows.as_slice(), ascii, now))
        } else {
            None
        },
        None => None,
    };
    let merged_table = match &sections.reviewed_merged {
        Some(rows) => if nm > 0 {
            Some(reviews::merged_to_table_at(rows.as_slice(), ascii, now))
        } else {
            None
        },
        None => None,
    };
    proof {
        assert(nr == row_count(review_rows(sv, visible)));
        assert(nm == row_count(reviewed_rows(sv, visible)));
        assert(own_table(open_table) == reviews_table(sv, visible, ascii, now));
        assert(own_table(merged_table) == reviewed_table(sv, visible, ascii, now));
    }
    let mut tables: Vec<&Table> = Vec::new();
    proof {
        assert(table_views(tables@) =~= Seq::empty());
    }
    add_table(&mut tables, &open_table);
    add_table(&mut tables, &merged_table);
    proof {
        assert(table_views(tables@) =~= table_list(own_table(open_table)) + table_list(
            own_table(merged_table),
        ));
    }
    let (alignment, compact, required) = table_state(s, &tables);
    if s.width() < required {
        return (top, None, compact, required);
    }
    let (open_sel, merged_sel, _, _) = mine_selection(selected, nr, nm, 0);
    let mut y = top;
    let mut caret: Option<u16> = caret_or(None, y, open_sel);
    if visible.reviews && sections.reviews.is_some() {
        y = paint_section(
            s,
            "Reviews",
            LAVENDER,
            nr,
            0,
            None,
            "No PRs to review.",
            open_table.as_ref(),
            &alignment,
            ascii,
            y,
        );
    }
    caret = caret_or(caret, y, merged_sel);
    if visible.reviewed_merged && sections.reviewed_merged.is_some() {
        y = paint_section(
            s,
            "Reviewed & merged",
            MAUVE,
            nm,
            0,
            None,
            "No reviewed PRs merged recently.",
            merged_table.as_ref(),
            &alignment,
            ascii,
            y,
        );
    }
    (y, caret, compact, required)
}

// ---------------------------------------------------------------------------
// Body and bottom
// ---------------------------------------------------------------------------

/// The body: the tab strip, if it is wanted, and the active view, with a bar over
/// the selected row.
pub open spec fn body_painted(
    p: Picture,
    s: SectionsView,
    ui: Ui,
    v: Visibility,
    look: Look,
    tabs: bool,
    top: int,
) -> Painted {
    let start = if tabs {
        Stage { picture: with_tabs(p, ui.view, look.ascii, top), y: down(top, 2) }
    } else {
        Stage { picture: p, y: top }
    };
    let inner = match ui.view {
        Pane::Mine => mine_painted(
            start.picture,
            s,
            as_int(ui.selected),
            v,
            look,
            start.y,
        ),
        Pane::Reviews => reviews_painted(
            start.picture,
            s,
            as_int(ui.selected),
            v,
            look.ascii,
            look.now,
            start.y,
        ),
    };
    Painted {
        picture: match inner.caret {
            Some(row) => tinted(inner.picture, row, SURFACE),
            None => inner.picture,
        },
        ..inner
    }
}

/// Paint the body from row `top` on. Returns the next free row, the row of the
/// selection, whether titles are cut, and the width that the columns need.
#[verifier::rlimit(30)]
pub fn paint_body(
    s: &mut Canvas,
    sections: &Sections,
    ui: &Ui,
    changes: &Changes,
    ascii: bool,
    tabs: bool,
    visible: Visibility,
    now: Timestamp,
    top: u16,
) -> (r: (u16, Option<u16>, bool, u16))
    requires
        now.valid(),
    ensures
        final(s)@.limits == old(s)@.limits,
        keeps_above(old(s)@, final(s)@, top as int),
        (Painted {
            picture: final(s)@,
            next: r.0 as int,
            caret: row_of(r.1),
            compact: r.2,
            required: r.3 as nat,
        }) == body_painted(
            old(s)@,
            sections@,
            *ui,
            visible,
            look_of(*changes, ascii, now),
            tabs,
            top as int,
        ),
{
    proof {
        keeping_itself(s@, top as int);
    }
    let ghost p = s@;
    let mut y = top;
    if tabs {
        y = below(paint_tabs(s, ui.view, ascii, y), 1);
    }
    let ghost q = s@;
    let out = match ui.view {
        Pane::Mine => paint_mine(s, sections, changes, ui.selected, ascii, visible, now, y),
        Pane::Reviews => paint_reviews(s, sections, ui.selected, ascii, visible, now, y),
    };
    let ghost inner = s@;
    proof {
        keeping_on(p, q, inner, top as int, y as int);
    }
    if let Some(row) = out.1 {
        highlight_row(s, row);
        proof {
            keeping_on(p, inner, s@, top as int, row as int);
        }
    }
    out
}

/// What painting the bottom came to: the picture, the next free row, and where
/// the cursor rests while the search prompt is open.
pub struct BottomPainted {
    pub picture: Picture,
    pub next: int,
    pub cursor: Option<(int, int)>,
}

/// A step of the bottom: the picture, the next free row, and whether anything is
/// painted above it.
pub struct Step {
    pub picture: Picture,
    pub y: int,
    pub painted: bool,
}

impl Step {
    /// The row of the next block: a blank row sets it apart.
    pub open spec fn row(self) -> int {
        if self.painted {
            down(self.y, 1)
        } else {
            self.y
        }
    }
}

/// After the legend.
pub open spec fn help_step(p: Picture, ascii: bool, show_help: bool, top: int) -> Step {
    if show_help {
        Step { picture: with_help(p, ascii, top), y: down(top, 15), painted: true }
    } else {
        Step { picture: p, y: top, painted: false }
    }
}

/// After the search prompt.
pub open spec fn prompt_step(st: Step, ui: Ui, matches: nat, ascii: bool) -> Step {
    if prompts(ui) {
        Step {
            picture: with_prompt(st.picture, ui.search@, matches, ascii, st.row()),
            y: down(st.row(), 1),
            painted: true,
        }
    } else {
        st
    }
}

/// After the status line.
pub open spec fn status_step(st: Step, status: Seq<char>) -> Step {
    if status.len() > 0 {
        Step {
            picture: with_dim(st.picture, status, 0, st.row()),
            y: down(st.row(), 1),
            painted: true,
        }
    } else {
        st
    }
}

/// After the footer.
pub open spec fn footer_step(
    st: Step,
    footer: Option<(Seq<char>, bool)>,
    more: bool,
    ascii: bool,
) -> Step {
    match footer {
        Some(f) => Step {
            picture: with_footer(st.picture, f.0, f.1, more, ascii, st.row()),
            y: down(st.row(), 1),
            painted: true,
        },
        None => st,
    }
}

/// The bottom: the legend, the search prompt, the status line, and the footer
/// last, each set apart from the one above by a blank row.
pub open spec fn bottom_painted(
    p: Picture,
    s: SectionsView,
    ui: Ui,
    status: Seq<char>,
    footer: Option<(Seq<char>, bool)>,
    ascii: bool,
    show_help: bool,
    v: Visibility,
    more: bool,
    top: int,
) -> BottomPainted {
    let a = help_step(p, ascii, show_help, top);
    let b = prompt_step(a, ui, shown_targets(ui.view, s, ui.search@, v).len(), ascii);
    let c = status_step(b, status);
    let d = footer_step(c, footer, more, ascii);
    BottomPainted {
        picture: d.picture,
        next: d.y,
        cursor: if ui.searching {
            Some((prompt_pen(a.picture, ui.search@, ascii, a.row()).x, a.row()))
        } else {
            None
        },
    }
}

/// A footer as text.
pub open spec fn footer_view(footer: Option<(&str, bool)>) -> Option<(Seq<char>, bool)> {
    match footer {
        Some(f) => Some((f.0@, f.1)),
        None => None,
    }
}

/// A position as a mathematical one.
pub open spec fn spot(at: Option<(u16, u16)>) -> Option<(int, int)> {
    match at {
        Some(p) => Some((p.0 as int, p.1 as int)),
        None => None,
    }
}

fn has_text(s: &str) -> (r: bool)
    ensures
        r == (s@.len() > 0),
{
    proof {
        reveal_strlit("");
        assert(s@.len() == 0 ==> s@ =~= ""@);
    }
    !crate::text::same(s, "")
}

/// Paint the bottom from row `top` on; `more` says that something is left out.
/// Returns the next free row and, while the
/// search prompt is open, where the cursor rests.
pub fn paint_bottom(
    s: &mut Canvas,
    sections: &Sections,
    ui: &Ui,
    status: &str,
    footer: Option<(&str, bool)>,
    ascii: bool,
    show_help: bool,
    visible: Visibility,
    more: bool,
    top: u16,
) -> (r: (u16, Option<(u16, u16)>))
    ensures
        final(s)@.limits == old(s)@.limits,
        keeps_above(old(s)@, final(s)@, top as int),
        (BottomPainted { picture: final(s)@, next: r.0 as int, cursor: spot(r.1) })
            == bottom_painted(
            old(s)@,
            sections@,
            *ui,
            status@,
            footer_view(footer),
            ascii,
            show_help,
            visible,
            more,
            top as int,
        ),
{
    broadcast use keeping_on;

    proof {
        keeping_itself(s@, top as int);
    }
    let mut y = top;
    let mut painted = false;
    let mut cursor: Option<(u16, u16)> = None;
    if show_help {
        y = paint_help(s, ascii, y);
        painted = true;
    }
    if has_text(ui.search.as_str()) || ui.searching {
        if painted {
            y = below(y, 1);
        }
        let found = targets_visible(ui.view, sections, ui.search.as_str(), visible);
        let (next, at) = paint_search_prompt(s, ui.search.as_str(), found.len(), ascii, y);
        y = next;
        if ui.searching {
            cursor = Some(at);
        }
        painted = true;
    }
    if has_text(status) {
        if painted {
            y = below(y, 1);
        }
        y = paint_dim(s, status, y);
        painted = true;
    }
    if let Some((next, refreshing)) = footer {
        if painted {
            y = below(y, 1);
        }
        y = paint_footer(s, next, refreshing, more, ascii, y);
    }
    (y, cursor)
}

/// The whole dashboard in one run of rows: the body, and the bottom right under
/// it.
pub struct Whole {
    pub picture: Picture,
    pub used: int,
    pub cursor: Option<(int, int)>,
    pub required: nat,
}

pub open spec fn whole_painted(
    p: Picture,
    s: SectionsView,
    ui: Ui,
    look: Look,
    status: Seq<char>,
    footer: Option<(Seq<char>, bool)>,
) -> Whole {
    let v = all_visible(s);
    let body = body_painted(p, s, ui, v, look, footer is Some, 0);
    let bottom = bottom_painted(
        body.picture,
        s,
        ui,
        status,
        footer,
        look.ascii,
        ui.show_help,
        v,
        body.compact,
        body.next,
    );
    Whole {
        picture: bottom.picture,
        used: bottom.next,
        cursor: bottom.cursor,
        required: body.required,
    }
}

/// Paint the body and the bottom right under it, where the dashboard is as high
/// as its content. Returns the rows used, where the cursor rests, and the width
/// that the columns need.
pub fn paint_dashboard(
    s: &mut Canvas,
    sections: &Sections,
    ui: &Ui,
    changes: &Changes,
    status: &str,
    footer: Option<(&str, bool)>,
    ascii: bool,
    now: Timestamp,
) -> (r: (u16, Option<(u16, u16)>, u16))
    requires
        now.valid(),
    ensures
        final(s)@.limits == old(s)@.limits,
        (Whole {
            picture: final(s)@,
            used: r.0 as int,
            cursor: spot(r.1),
            required: r.2 as nat,
        }) == whole_painted(
            old(s)@,
            sections@,
            *ui,
            look_of(*changes, ascii, now),
            status@,
            footer_view(footer),
        ),
{
    let visible = Visibility::all(sections);
    let body = paint_body(
        s,
        sections,
        ui,
        changes,
        ascii,
        footer.is_some(),
        visible,
        now,
        0,
    );
    let bottom = paint_bottom(
        s,
        sections,
        ui,
        status,
        footer,
        ascii,
        ui.show_help,
        visible,
        body.2,
        body.0,
    );
    (bottom.0, bottom.1, body.3)
}

/// Room for the whole dashboard, as far as a surface can be high.
pub open spec fn whole_height(s: SectionsView, ui: Ui) -> int {
    down(
        surface_height(room_for(s, ui)) as int,
        6 + if ui.show_help {
            16
        } else {
            0int
        },
    )
}

fn whole_bound(sections: &Sections, ui: &Ui) -> (r: u16)
    ensures
        r == whole_height(sections@, *ui),
{
    below(height_bound(sections, ui), bottom_bound(ui) as usize)
}

/// The width that a dashboard needs.
pub open spec fn needed_width(required: nat) -> nat {
    if required < MIN_WIDTH {
        MIN_WIDTH as nat
    } else {
        required
    }
}

/// A height of at least one row.
pub open spec fn at_least_one(n: int) -> u16 {
    if n < 1 {
        1
    } else {
        n as u16
    }
}

fn needs(required: u16) -> (r: u16)
    ensures
        r == needed_width(required as nat),
{
    if required < MIN_WIDTH {
        MIN_WIDTH
    } else {
        required
    }
}

/// What a dashboard is written out as: as high as its content, or a notice when
/// its columns need more than the width of the output.
pub open spec fn written(
    s: SectionsView,
    ui: Ui,
    look: Look,
    footer: Option<(Seq<char>, bool)>,
    profile: Profile,
) -> Seq<char> {
    let l = Limits {
        width: 120,
        height: whole_height(s, ui) as u16,
        grapheme: false,
        eaw_wide: false,
    };
    let w = whole_painted(Picture::empty(l), s, ui, look, Seq::empty(), footer);
    if needed_width(w.required) <= 120 {
        w.picture.resize(120, at_least_one(w.used)).encoded(profile)
    } else {
        with_dim(
            Picture::empty(Limits { height: 1, ..l }),
            small_notice(needed_width(w.required), w.used as nat),
            0,
            0,
        ).encoded(profile)
    }
}

/// Write a dashboard out as seen from `now`.
pub fn render_to_string_at(
    sections: &Sections,
    ui: &Ui,
    changes: &Changes,
    footer: Option<(&str, bool)>,
    ascii: bool,
    profile: Profile,
    now: Timestamp,
) -> (r: String)
    requires
        now.valid(),
    ensures
        r@ == written(
            sections@,
            *ui,
            look_of(*changes, ascii, now),
            footer_view(footer),
            profile,
        ),
{
    proof {
        reveal_strlit("");
        assert(""@ =~= Seq::<char>::empty());
    }
    let w: u16 = OUTPUT_WIDTH as u16;
    let mut canvas = Canvas::new(w, whole_bound(sections, ui));
    let (used, _, required) = paint_dashboard(
        &mut canvas,
        sections,
        ui,
        changes,
        "",
        footer,
        ascii,
        now,
    );
    let required = needs(required);
    if w >= required {
        let height: u16 = if used < 1 {
            1
        } else {
            used
        };
        canvas.resize(w, height);
        canvas.encode(profile)
    } else {
        let mut notice = Canvas::new(w, 1);
        let message = too_small_message(required, used);
        paint_dim(&mut notice, message.as_str(), 0);
        notice.encode(profile)
    }
}

/// Write a dashboard out: what one-shot output prints. The profile decides how
/// much styling survives.
pub fn render_to_string(
    sections: &Sections,
    ui: &Ui,
    changes: &Changes,
    footer: Option<(&str, bool)>,
    ascii: bool,
    profile: Profile,
) -> (r: String)
    ensures
        exists|now: Timestamp|
            crate::timefmt::clock_reading(now) && now.valid() && r@ == #[trigger] written(
                sections@,
                *ui,
                look_of(*changes, ascii, now),
                footer_view(footer),
                profile,
            ),
{
    let now = crate::timefmt::now();
    render_to_string_at(sections, ui, changes, footer, ascii, profile, now)
}


// ---------------------------------------------------------------------------
// Heights
// ---------------------------------------------------------------------------

/// What is shown is there: no more rows than there are.
pub open spec fn covers(s: SectionsView, v: Visibility) -> bool {
    &&& v.prs ==> s.prs is Some
    &&& v.merged matches Some(n) ==> s.merged matches Some(rows) && n <= rows.len()
}

/// The body takes exactly the height that the layout counts for it, on a canvas
/// that is wide enough.
pub proof fn the_body_is_as_high_as_counted(
    p: Picture,
    s: SectionsView,
    ui: Ui,
    v: Visibility,
    look: Look,
    tabs: bool,
    top: int,
)
    requires
        0 <= top <= 65535,
        covers(s, v),
        body_painted(p, s, ui, v, look, tabs, top).required <= p.limits.width,
    ensures
        body_painted(p, s, ui, v, look, tabs, top).next == down(
            top,
            body_h(s, ui.view, v, tabs) as int,
        ),
{
    let start = if tabs {
        Stage { picture: with_tabs(p, ui.view, look.ascii, top), y: down(top, 2) }
    } else {
        Stage { picture: p, y: top }
    };
    let selected = as_int(ui.selected);
    let total = body_h(s, ui.view, v, tabs) as int;
    match ui.view {
        Pane::Mine => {
            mine_is_as_high_as_counted(start.picture, s, selected, v, look, start.y);
            let inner = body_h(s, Pane::Mine, v, false) as int;
            assert(total == inner + if tabs {
                2int
            } else {
                0
            });
            assert(mine_painted(start.picture, s, selected, v, look, start.y).next == down(
                start.y,
                inner,
            ));
        },
        Pane::Reviews => {
            reviews_are_as_high_as_counted(
                start.picture,
                s,
                selected,
                v,
                look.ascii,
                look.now,
                start.y,
            );
            let inner = body_h(s, Pane::Reviews, v, false) as int;
            assert(total == inner + if tabs {
                2int
            } else {
                0
            });
            assert(reviews_painted(
                start.picture,
                s,
                selected,
                v,
                look.ascii,
                look.now,
                start.y,
            ).next == down(start.y, inner));
        },
    }
}

proof fn mine_is_as_high_as_counted(
    p: Picture,
    s: SectionsView,
    selected: Option<int>,
    v: Visibility,
    look: Look,
    top: int,
)
    requires
        0 <= top <= 65535,
        covers(s, v),
        mine_painted(p, s, selected, v, look, top).required <= p.limits.width,
    ensures
        mine_painted(p, s, selected, v, look, top).next == down(
            top,
            body_h(s, Pane::Mine, v, false) as int,
        ),
{
    let t = mine_tables(s, v, look);
    let title_w = title_within(p.limits, t.list(), row_limit(p.limits));
    let a = Stage { picture: p, y: top };
    let b = prs_stage(a, s, v, t, title_w, look.ascii);
    let c = queue_stage(b, s, v, t, title_w, look.ascii);
    let d = merged_stage(c, s, v, t, title_w, look.ascii);
    let n1: int = if v.prs {
        listed(s, v).len() as int + 3
    } else {
        0
    };
    assert(b.y == down(top, n1));
    let n2: int = match s.queue {
        Some(rows) => limited_h(rows.len(), queue_shown(s, v)) as int,
        None => 0,
    };
    if s.queue is Some && v.queue is Some {
        visible_are_fewer(s.queue->0, v.queue->0);
    }
    assert(c.y == down(b.y, n2));
    let n3: int = match s.merged {
        Some(rows) => limited_h(
            rows.len(),
            match v.merged {
                Some(n) => Some(n as nat),
                None => None,
            },
        ) as int,
        None => 0,
    };
    assert(d.y == down(c.y, n3));
    let n4 = shipments_h(s, v) as int;
    assert(mine_painted(p, s, selected, v, look, top).next == down(d.y, n4));
    assert(body_h(s, Pane::Mine, v, false) == n1 + n2 + n3 + n4);
}

proof fn reviews_are_as_high_as_counted(
    p: Picture,
    s: SectionsView,
    selected: Option<int>,
    v: Visibility,
    ascii: bool,
    now: Timestamp,
    top: int,
)
    requires
        0 <= top <= 65535,
        reviews_painted(p, s, selected, v, ascii, now, top).required <= p.limits.width,
    ensures
        reviews_painted(p, s, selected, v, ascii, now, top).next == down(
            top,
            body_h(s, Pane::Reviews, v, false) as int,
        ),
{
}

/// The bottom takes exactly the height that the layout counts for it.
pub proof fn the_bottom_is_as_high_as_counted(
    p: Picture,
    s: SectionsView,
    ui: Ui,
    status: Seq<char>,
    footer: Option<(Seq<char>, bool)>,
    ascii: bool,
    show_help: bool,
    v: Visibility,
    more: bool,
    top: int,
)
    requires
        0 <= top <= 65535,
    ensures
        bottom_painted(p, s, ui, status, footer, ascii, show_help, v, more, top).next == down(
            top,
            bottom_h(ui, status, footer is Some, show_help) as int,
        ),
{
}

/// A selection has a bar exactly when one of the rows that can be selected is
/// meant: the rows are counted as they are painted.
pub proof fn the_selection_lines_up_with_the_rows(
    p: Picture,
    s: SectionsView,
    selected: int,
    v: Visibility,
    look: Look,
    top: int,
)
    requires
        selected >= 0,
        mine_painted(p, s, Some(selected), v, look, top).required <= p.limits.width,
    ensures
        mine_painted(p, s, Some(selected), v, look, top).caret is Some <==> selected
            < shown_targets(Pane::Mine, s, Seq::empty(), v).len(),
{
    let lists = crate::nav::shown_links(Pane::Mine, s, Seq::empty(), v);
    reveal_with_fuel(crate::nav::joined, 5);
    let a = lists.drop_last();
    let b = a.drop_last();
    let c = b.drop_last();
    assert(c.drop_last() =~= Seq::empty());
    assert(lists.last() == lists[3]);
    assert(a.last() == lists[2]);
    assert(b.last() == lists[1]);
    assert(c.last() == lists[0]);
    assert(lists[0].len() == row_count(prs_rows(s, v)));
}

/// The page of a selection is that of the row it falls on, section by section.
pub proof fn the_selected_page_is_that_of_its_row(s: SectionsView, v: Visibility, i: int)
    requires
        0 <= i < shown_targets(Pane::Mine, s, Seq::empty(), v).len(),
    ensures
        ({
            let page = shown_targets(Pane::Mine, s, Seq::empty(), v)[i];
            let np = row_count(prs_rows(s, v)) as int;
            let nq = row_count(queue_rows(s, v)) as int;
            let nm = row_count(merged_rows(s, v)) as int;
            if i < np {
                prs_rows(s, v) matches Some(rows) && page == rows[i].url
            } else if i < np + nq {
                queue_rows(s, v) matches Some(rows) && page == rows[i - np].url
            } else if i < np + nq + nm {
                merged_rows(s, v) matches Some(rows) && page == rows[i - np - nq].url
            } else {
                page == crate::nav::shipment_links(commits_shown(s, v))[i - np - nq - nm]
            }
        }),
{
    let lists = crate::nav::shown_links(Pane::Mine, s, Seq::empty(), v);
    reveal_with_fuel(crate::nav::joined, 5);
    let a = lists.drop_last();
    let b = a.drop_last();
    let c = b.drop_last();
    assert(c.drop_last() =~= Seq::empty());
    assert(lists.last() == lists[3]);
    assert(a.last() == lists[2]);
    assert(b.last() == lists[1]);
    assert(c.last() == lists[0]);
    assert(lists[0].len() == row_count(prs_rows(s, v)));
}

/// The same holds of the reviews: a selection has a bar exactly when it falls on
/// one of their rows.
pub proof fn the_selection_lines_up_with_the_reviews(
    p: Picture,
    s: SectionsView,
    selected: int,
    v: Visibility,
    ascii: bool,
    now: Timestamp,
    top: int,
)
    requires
        selected >= 0,
        reviews_painted(p, s, Some(selected), v, ascii, now, top).required <= p.limits.width,
    ensures
        reviews_painted(p, s, Some(selected), v, ascii, now, top).caret is Some <==> selected
            < shown_targets(Pane::Reviews, s, Seq::empty(), v).len(),
{
    let lists = crate::nav::shown_links(Pane::Reviews, s, Seq::empty(), v);
    reveal_with_fuel(crate::nav::joined, 3);
    let a = lists.drop_last();
    assert(a.drop_last() =~= Seq::empty());
    assert(lists.last() == lists[1]);
    assert(a.last() == lists[0]);
}

// ---------------------------------------------------------------------------
// The frame
// ---------------------------------------------------------------------------

/// Where the parts of a frame go on a screen.
#[derive(Clone, Copy, Debug, PartialEq, Eq)]
pub struct Placement {
    /// The first row of the body that is shown, at the top of the screen.
    pub scroll: u16,
    /// How many of its rows are shown.
    pub shown: u16,
    /// The row that the bottom starts at.
    pub top: u16,
    /// How much of the head of the bottom is cut.
    pub cut: u16,
}

/// Where the parts of a frame go.
pub struct Place {
    pub scroll: int,
    pub shown: int,
    pub top: int,
    pub cut: int,
}

impl View for Placement {
    type V = Place;

    open spec fn view(&self) -> Place {
        Place {
            scroll: self.scroll as int,
            shown: self.shown as int,
            top: self.top as int,
            cut: self.cut as int,
        }
    }
}

/// The smaller of two numbers.
pub open spec fn smaller(a: int, b: int) -> int {
    if a < b {
        a
    } else {
        b
    }
}

/// The bottom takes the last rows of the screen; of one that is higher than the
/// screen the end is shown. The body has the rows above it, and scrolls no
/// further than it takes to show the selected row.
pub open spec fn placed(body: int, bottom: int, rows: int, sel: Option<int>) -> Place {
    let top = rows - smaller(bottom, rows);
    let scroll = match sel {
        Some(r) => if top > 0 && r >= top {
            r + 1 - top
        } else {
            0
        },
        None => 0,
    };
    Place {
        scroll,
        shown: if body < scroll {
            0
        } else {
            smaller(body - scroll, top)
        },
        top,
        cut: bottom - smaller(bottom, rows),
    }
}

/// Place the body and the bottom on a screen of `rows` rows.
pub fn compose(body_h: u16, bottom_h: u16, rows: u16, sel: Option<u16>) -> (r: Placement)
    ensures
        r@ == placed(body_h as int, bottom_h as int, rows as int, row_of(sel)),
{
    let taken: u16 = if bottom_h < rows {
        bottom_h
    } else {
        rows
    };
    let top: u16 = rows - taken;
    let scroll: u16 = match sel {
        Some(y) => if top > 0 && y >= top {
            y - (top - 1)
        } else {
            0
        },
        None => 0,
    };
    let shown: u16 = if body_h < scroll {
        0
    } else if body_h - scroll < top {
        body_h - scroll
    } else {
        top
    };
    Placement { scroll, shown, top, cut: bottom_h - taken }
}

/// Wherever there is room for a row of the body, a selected row of it is on the
/// screen, above the bottom.
pub proof fn the_selected_row_is_shown(body: int, bottom: int, rows: int, sel: int)
    requires
        0 <= bottom < rows,
        0 <= sel < body,
    ensures
        ({
            let place = placed(body, bottom, rows, Some(sel));
            0 <= sel - place.scroll < place.shown <= place.top
        }),
{
}

/// The parts of a frame do not overlap, and stay on the screen: the body above
/// the bottom, and the bottom up to the last row.
pub proof fn the_parts_of_a_frame_fit_the_screen(
    body: int,
    bottom: int,
    rows: int,
    sel: Option<int>,
)
    requires
        body >= 0,
        bottom >= 0,
        rows >= 0,
        sel matches Some(r) ==> r >= 0,
    ensures
        ({
            let place = placed(body, bottom, rows, sel);
            &&& 0 <= place.shown <= place.top
            &&& place.top + (bottom - place.cut) == rows
            &&& bottom <= rows ==> place.cut == 0
            &&& body <= place.top && sel is None ==> place.shown == body && place.scroll == 0
        }),
{
}

/// A frame to be shown on a screen.
pub enum Drawn {
    /// The screen is too small: a notice, on a screen of the given width where
    /// the height can be chosen.
    Notice { message: String, width: Option<u16> },
    /// The body and the bottom, each on a canvas of its own, and their heights.
    Pinned {
        body: Canvas,
        body_height: u16,
        bottom: Canvas,
        bottom_height: u16,
        place: Placement,
        cursor: Option<(u16, u16)>,
    },
    /// The whole dashboard on one canvas.
    Inline { canvas: Canvas, cursor: Option<(u16, u16)> },
}

/// What a frame shows.
pub enum DrawnView {
    Notice { message: Seq<char>, width: Option<u16> },
    Pinned {
        body: Picture,
        body_height: int,
        bottom: Picture,
        bottom_height: int,
        place: Place,
        cursor: Option<(int, int)>,
    },
    Inline { picture: Picture, cursor: Option<(int, int)> },
}

impl View for Drawn {
    type V = DrawnView;

    open spec fn view(&self) -> DrawnView {
        match *self {
            Drawn::Notice { message, width } => DrawnView::Notice { message: message@, width },
            Drawn::Pinned { body, body_height, bottom, bottom_height, place, cursor } =>
                DrawnView::Pinned {
                body: body@,
                body_height: body_height as int,
                bottom: bottom@,
                bottom_height: bottom_height as int,
                place: place@,
                cursor: spot(cursor),
            },
            Drawn::Inline { canvas, cursor } => DrawnView::Inline {
                picture: canvas@,
                cursor: spot(cursor),
            },
        }
    }
}

/// The cursor of the search prompt on the screen, unless the prompt is cut off.
pub open spec fn cursor_at(at: Option<(int, int)>, top: int, cut: int) -> Option<(int, int)> {
    match at {
        Some(p) => if p.1 >= cut {
            Some((p.0, down(top, p.1 - cut)))
        } else {
            None
        },
        None => None,
    }
}

/// A frame for a screen that is filled: the layout decides what is shown, and
/// the bottom goes to the last rows.
pub open spec fn pinned_frame(
    screen: Limits,
    s: SectionsView,
    ui: Ui,
    look: Look,
    status: Seq<char>,
    footer: Option<(Seq<char>, bool)>,
) -> DrawnView {
    let w = at_least_one(screen.width as int);
    let rows = at_least_one(screen.height as int);
    let layout = layout_of(
        w,
        frame_of(rows, s, ui, status, footer is Some, true),
        ui.show_help,
    );
    if layout.too_small {
        DrawnView::Notice {
            message: small_notice(MIN_WIDTH as nat, layout.required_height as nat),
            width: None,
        }
    } else {
        let body = body_painted(
            Picture::empty(
                Limits {
                    width: w,
                    height: at_least_one(surface_height(room_for(s, ui)) as int),
                    ..screen
                },
            ),
            s,
            ui,
            layout.visible,
            look,
            true,
            0,
        );
        if w < needed_width(body.required) {
            DrawnView::Notice {
                message: small_notice(
                    needed_width(body.required),
                    layout.required_height as nat,
                ),
                width: None,
            }
        } else {
            let height: u16 = if ui.show_help {
                22
            } else {
                6
            };
            let bottom = bottom_painted(
                Picture::empty(Limits { width: w, height, ..screen }),
                s,
                ui,
                status,
                footer,
                look.ascii,
                layout.show_help,
                layout.visible,
                layout.constrained || body.compact,
                0,
            );
            let place = placed(body.next, bottom.next, rows as int, body.caret);
            DrawnView::Pinned {
                body: body.picture,
                body_height: body.next,
                bottom: bottom.picture,
                bottom_height: bottom.next,
                place,
                cursor: cursor_at(bottom.cursor, place.top, place.cut),
            }
        }
    }
}

/// The height that the whole dashboard asks for.
pub open spec fn whole_asks(
    s: SectionsView,
    ui: Ui,
    status: Seq<char>,
    footer: Option<(Seq<char>, bool)>,
) -> nat {
    surface_height(
        body_h(s, ui.view, all_visible(s), footer is Some) + bottom_h(
            ui,
            status,
            footer is Some,
            ui.show_help,
        ),
    )
}

/// A frame for a screen that is as high as the dashboard.
pub open spec fn inline_frame(
    screen: Limits,
    s: SectionsView,
    ui: Ui,
    look: Look,
    status: Seq<char>,
    footer: Option<(Seq<char>, bool)>,
) -> DrawnView {
    let w = at_least_one(screen.width as int);
    let asked = whole_asks(s, ui, status, footer);
    if w < MIN_WIDTH {
        DrawnView::Notice { message: small_notice(MIN_WIDTH as nat, asked), width: Some(w) }
    } else {
        let whole = whole_painted(
            Picture::empty(
                Limits { width: w, height: at_least_one(whole_height(s, ui)), ..screen },
            ),
            s,
            ui,
            look,
            status,
            footer,
        );
        if w >= needed_width(whole.required) {
            DrawnView::Inline {
                picture: whole.picture.resize(w, at_least_one(whole.used)),
                cursor: whole.cursor,
            }
        } else {
            DrawnView::Notice {
                message: small_notice(needed_width(whole.required), asked),
                width: Some(w),
            }
        }
    }
}

fn one_or(n: u16) -> (r: u16)
    ensures
        r == at_least_one(n as int),
{
    if n < 1 {
        1
    } else {
        n
    }
}

fn draw_pinned(
    screen: Limits,
    sections: &Sections,
    ui: &Ui,
    changes: &Changes,
    status: &str,
    footer: Option<(&str, bool)>,
    ascii: bool,
    now: Timestamp,
) -> (r: Drawn)
    requires
        now.valid(),
    ensures
        r@ == pinned_frame(
            screen,
            sections@,
            *ui,
            look_of(*changes, ascii, now),
            status@,
            footer_view(footer),
        ),
{
    let w = one_or(screen.width);
    let rows = one_or(screen.height);
    let layout = responsive_layout(
        w,
        rows,
        sections,
        ui,
        status,
        footer.is_some(),
        true,
        true,
    );
    if layout.too_small {
        return Drawn::Notice {
            message: too_small_message(MIN_WIDTH, layout.required_height),
            width: None,
        };
    }
    let mut body = Canvas::with_limits(
        Limits { width: w, height: one_or(height_bound(sections, ui)), ..screen },
    );
    let painted = paint_body(
        &mut body,
        sections,
        ui,
        changes,
        ascii,
        true,
        layout.visible,
        now,
        0,
    );
    let required = needs(painted.3);
    if w < required {
        return Drawn::Notice {
            message: too_small_message(required, layout.required_height),
            width: None,
        };
    }
    let mut bottom = Canvas::with_limits(Limits { width: w, height: bottom_bound(ui), ..screen });
    let (bottom_h, at) = paint_bottom(
        &mut bottom,
        sections,
        ui,
        status,
        footer,
        ascii,
        layout.show_help,
        layout.visible,
        layout.constrained || painted.2,
        0,
    );
    let place = compose(painted.0, bottom_h, rows, painted.1);
    let cursor = match at {
        Some(p) => if p.1 >= place.cut {
            Some((p.0, below(place.top, (p.1 - place.cut) as usize)))
        } else {
            None
        },
        None => None,
    };
    Drawn::Pinned {
        body,
        body_height: painted.0,
        bottom,
        bottom_height: bottom_h,
        place,
        cursor,
    }
}

fn draw_inline(
    screen: Limits,
    sections: &Sections,
    ui: &Ui,
    changes: &Changes,
    status: &str,
    footer: Option<(&str, bool)>,
    ascii: bool,
    now: Timestamp,
) -> (r: Drawn)
    requires
        now.valid(),
    ensures
        r@ == inline_frame(
            screen,
            sections@,
            *ui,
            look_of(*changes, ascii, now),
            status@,
            footer_view(footer),
        ),
{
    let w = one_or(screen.width);
    let body_h = body_height(sections, ui.view, Visibility::all(sections), footer.is_some());
    let bottom_h = bottom_height(ui, status, footer.is_some(), ui.show_help);
    let asked: u16 = if body_h > 65535 - bottom_h {
        65535
    } else {
        (body_h + bottom_h) as u16
    };
    if w < MIN_WIDTH {
        return Drawn::Notice { message: too_small_message(MIN_WIDTH, asked), width: Some(w) };
    }
    let mut canvas = Canvas::with_limits(
        Limits { width: w, height: one_or(whole_bound(sections, ui)), ..screen },
    );
    let (used, cursor, required) = paint_dashboard(
        &mut canvas,
        sections,
        ui,
        changes,
        status,
        footer,
        ascii,
        now,
    );
    let required = needs(required);
    if w >= required {
        canvas.resize(w, one_or(used));
        Drawn::Inline { canvas, cursor }
    } else {
        Drawn::Notice { message: too_small_message(required, asked), width: Some(w) }
    }
}

/// Draw the dashboard for a screen. While watching, the screen is filled
/// (`pinned`): the bottom goes to its last rows, and sections are left out until
/// the rest fits. Otherwise the screen is as high as the dashboard.
pub fn render_dashboard(
    screen: Limits,
    sections: &Sections,
    ui: &Ui,
    changes: &Changes,
    status: &str,
    footer: Option<(&str, bool)>,
    ascii: bool,
    pinned: bool,
    now: Timestamp,
) -> (r: Drawn)
    requires
        now.valid(),
    ensures
        r@ == if pinned {
            pinned_frame(
                screen,
                sections@,
                *ui,
                look_of(*changes, ascii, now),
                status@,
                footer_view(footer),
            )
        } else {
            inline_frame(
                screen,
                sections@,
                *ui,
                look_of(*changes, ascii, now),
                status@,
                footer_view(footer),
            )
        },
{
    if pinned {
        draw_pinned(screen, sections, ui, changes, status, footer, ascii, now)
    } else {
        draw_inline(screen, sections, ui, changes, status, footer, ascii, now)
    }
}

/// A row is marked exactly if its pull request changed: one of the open ones if
/// its status did, one of the merged ones if it is newly merged.
pub proof fn the_changed_rows_are_marked(
    s: SectionsView,
    v: Visibility,
    c: Changes,
    ascii: bool,
    now: Timestamp,
    i: int,
)
    ensures
        ({
            let t = mine_tables(s, v, look_of(c, ascii, now));
            &&& (prs_rows(s, v) matches Some(rows) && 0 <= i < rows.len()) ==> (
            t.prs matches Some(x) && (x.rows[i][0].style.bold <==> c.status_changed@.contains(
                prs_rows(s, v)->0[i].number,
            )))
            &&& (merged_rows(s, v) matches Some(rows) && 0 <= i < rows.len()) ==> (
            t.merged matches Some(x) && (x.rows[i][0].style.bold <==> c.newly_merged@.contains(
                merged_rows(s, v)->0[i].number,
            )))
        }),
{
    let t = mine_tables(s, v, look_of(c, ascii, now));
    if let Some(rows) = prs_rows(s, v) {
        if 0 <= i < rows.len() {
            prs::a_row_shows_its_pull_request(rows[i], ascii, c.status_changed@);
            assert(t.prs->0.rows[i] == prs::cells_of_row(rows[i], ascii, c.status_changed@));
        }
    }
    if let Some(rows) = merged_rows(s, v) {
        if 0 <= i < rows.len() {
            merged::a_row_shows_its_merge(rows[i], ascii, c.newly_merged@, now);
            assert(t.merged->0.rows[i] == merged::cells_of_row(
                rows[i],
                ascii,
                c.newly_merged@,
                now,
            ));
        }
    }
}

/// What is shown of each section is what the choice says: the open pull requests,
/// without those in the queue where that is shown; the rows of the queue that are
/// chosen; and of the merged ones the first, as many as are chosen.
pub proof fn what_is_chosen_is_shown(s: SectionsView, v: Visibility, k: int)
    ensures
        prs_rows(s, v) is Some <==> s.prs is Some && v.prs,
        queue_rows(s, v) is Some <==> s.queue is Some && v.queue is Some,
        merged_rows(s, v) is Some <==> s.merged is Some && v.merged is Some,
        (s.prs is Some && v.prs && v.queue is None) ==> prs_rows(s, v) == s.prs,
        (s.prs is Some && v.prs && v.queue is Some) ==> prs_rows(s, v) == Some(
            crate::prs::unqueued(s.prs->0),
        ),
        v.queue == Some(crate::queue::VisibleRows::All) && s.queue is Some ==> queue_rows(s, v)
            == s.queue,
        (merged_rows(s, v) matches Some(rows) && 0 <= k < rows.len()) ==> s.merged->0[k]
            == merged_rows(s, v)->0[k],
        merged_rows(s, v) matches Some(rows) ==> (rows.len() == s.merged->0.len()
            || rows.len() == v.merged->0) && rows.len() <= s.merged->0.len() && rows.len()
            <= v.merged->0,
{
    if s.queue is Some {
        crate::queue::a_narrower_choice_shows_no_more(s.queue->0);
    }
}

/// The bar is on the selected row: on the open pull requests it is two rows below
/// the section's header for the first of them, and one row further for each next.
pub proof fn the_bar_is_on_the_selected_row(
    p: Picture,
    s: SectionsView,
    i: int,
    v: Visibility,
    look: Look,
    top: int,
)
    requires
        0 <= i < row_count(prs_rows(s, v)),
        0 <= top,
        top + i + 2 <= 65535,
        mine_painted(p, s, Some(i), v, look, top).required <= p.limits.width,
    ensures
        mine_painted(p, s, Some(i), v, look, top).caret == Some(top + 2 + i),
{
}

/// A section's header counts all of its rows, and what is not shown of them is
/// said to be hidden: shown and hidden come to the count.
pub proof fn shown_and_hidden_come_to_the_count(
    st: Stage,
    s: SectionsView,
    v: Visibility,
    t: MineTables,
    title_w: nat,
    ascii: bool,
)
    ensures
        prs_rows(s, v) matches Some(rows) ==> prs_stage(st, s, v, t, title_w, ascii).picture
            == with_section(
            st.picture,
            "My open PRs"@,
            GREEN,
            rows.len(),
            0,
            None,
            "No open PRs."@,
            t.prs,
            title_w,
            ascii,
            st.y,
        ),
        (s.queue is Some && queue_rows(s, v) is Some) ==> ({
            let hidden = s.queue->0.len() - queue_rows(s, v)->0.len();
            hidden >= 0 && queue_stage(st, s, v, t, title_w, ascii).picture == with_section(
                st.picture,
                "Merge Queue"@,
                PEACH,
                s.queue->0.len(),
                hidden as nat,
                eta_note(s.queue_next_eta),
                "No merge queue."@,
                t.queue,
                title_w,
                ascii,
                st.y,
            )
        }),
        (s.merged is Some && merged_rows(s, v) is Some) ==> ({
            let hidden = s.merged->0.len() - merged_rows(s, v)->0.len();
            hidden >= 0 && merged_stage(st, s, v, t, title_w, ascii).picture == with_section(
                st.picture,
                "My merged PRs"@,
                MAUVE,
                s.merged->0.len(),
                hidden as nat,
                None,
                "No recent merged PRs."@,
                t.merged,
                title_w,
                ascii,
                st.y,
            )
        }),
{
    if s.queue is Some && v.queue is Some {
        crate::layout::visible_are_fewer(s.queue->0, v.queue->0);
    }
}

/// The estimate beside the queue is told exactly if there is one, and one that has
/// passed counts as no time.
pub proof fn an_estimate_is_told(n: i64)
    ensures
        eta_note(None) is None,
        n >= 0 ==> eta_note(Some(n)) == Some("~"@ + eta_of(n as int) + " to merge"@),
        n < 0 ==> eta_note(Some(n)) == eta_note(Some(0)),
{
}

/// The body scrolls only for a selected row that would not be seen, and then only
/// as far as it takes to see it.
pub proof fn the_body_scrolls_no_further_than_it_must(
    body: int,
    bottom: int,
    rows: int,
    sel: Option<int>,
)
    requires
        0 <= bottom < rows,
        body >= 0,
        sel matches Some(r) ==> 0 <= r < body,
    ensures
        ({
            let place = placed(body, bottom, rows, sel);
            &&& place.top == rows - bottom
            &&& sel is None ==> place.scroll == 0
            &&& sel matches Some(r) ==> (r < place.top ==> place.scroll == 0)
            &&& sel matches Some(r) ==> (r >= place.top ==> r - place.scroll == place.top - 1)
        }),
{
}

/// A search does not look at the shipments: while there is one, none of them can
/// be selected.
pub proof fn a_search_leaves_the_shipments_out(s: SectionsView, v: Visibility, query: Seq<char>)
    requires
        query.len() > 0,
    ensures
        shown_targets(Pane::Mine, s, query, v).len() == row_count(prs_rows(s, v)) + row_count(
            queue_rows(s, v),
        ) + row_count(merged_rows(s, v)),
{
    let lists = crate::nav::shown_links(Pane::Mine, s, query, v);
    reveal_with_fuel(crate::nav::joined, 5);
    let a = lists.drop_last();
    let b = a.drop_last();
    let c = b.drop_last();
    assert(c.drop_last() =~= Seq::empty());
    assert(lists.last() == lists[3]);
    assert(a.last() == lists[2]);
    assert(b.last() == lists[1]);
    assert(c.last() == lists[0]);
    assert(lists[0].len() == row_count(prs_rows(s, v)));
}

/// The page of a selection among the reviews is that of the row it falls on.
pub proof fn the_selected_page_is_that_of_its_review(
    s: SectionsView,
    v: Visibility,
    query: Seq<char>,
    i: int,
)
    requires
        0 <= i < shown_targets(Pane::Reviews, s, query, v).len(),
    ensures
        ({
            let page = shown_targets(Pane::Reviews, s, query, v)[i];
            let n = row_count(review_rows(s, v)) as int;
            if i < n {
                review_rows(s, v) matches Some(rows) && page == rows[i].url
            } else {
                reviewed_rows(s, v) matches Some(rows) && page == rows[i - n].url
            }
        }),
        review_rows(s, v) is Some <==> s.reviews is Some && v.reviews,
        reviewed_rows(s, v) is Some <==> s.reviewed_merged is Some && v.reviewed_merged,
        v.reviews ==> review_rows(s, v) == s.reviews,
        v.reviewed_merged ==> reviewed_rows(s, v) == s.reviewed_merged,
{
    let lists = crate::nav::shown_links(Pane::Reviews, s, query, v);
    reveal_with_fuel(crate::nav::joined, 3);
    let a = lists.drop_last();
    assert(a.drop_last() =~= Seq::empty());
    assert(lists.last() == lists[1]);
    assert(a.last() == lists[0]);
}

/// A filled screen shows the dashboard whenever its layout fits and its columns
/// do, and a notice only where they do not.
pub proof fn a_notice_is_for_want_of_room(
    screen: Limits,
    s: SectionsView,
    ui: Ui,
    look: Look,
    status: Seq<char>,
    footer: Option<(Seq<char>, bool)>,
)
    requires
        screen.width >= 1,
        screen.height >= 1,
    ensures
        ({
            let r = pinned_frame(screen, s, ui, look, status, footer);
            let layout = layout_of(
                screen.width,
                frame_of(screen.height, s, ui, status, footer is Some, true),
                ui.show_help,
            );
            &&& layout.too_small ==> r is Notice
            &&& r is Pinned ==> !layout.too_small && screen.width >= MIN_WIDTH
            &&& !(r is Inline)
        }),
{
}

/// The active view is the one that is painted, below the tab strip where there is
/// one, and the selected row has the bar.
pub proof fn the_active_view_is_painted(
    p: Picture,
    s: SectionsView,
    ui: Ui,
    v: Visibility,
    look: Look,
    top: int,
)
    ensures
        ({
            let bare = body_painted(p, s, ui, v, look, false, top);
            let tabbed = body_painted(p, s, ui, v, look, true, top);
            let q = with_tabs(p, ui.view, look.ascii, top);
            let mine = mine_painted(p, s, as_int(ui.selected), v, look, top);
            let reviews = reviews_painted(
                p,
                s,
                as_int(ui.selected),
                v,
                look.ascii,
                look.now,
                top,
            );
            &&& ui.view == Pane::Mine ==> bare.caret == mine.caret && bare.next == mine.next && (
            mine.caret is None ==> bare.picture == mine.picture) && (mine.caret matches Some(y)
                ==> bare.picture == tinted(mine.picture, y, SURFACE))
            &&& ui.view == Pane::Reviews ==> bare.caret == reviews.caret && bare.next
                == reviews.next && (reviews.caret is None ==> bare.picture == reviews.picture) && (
            reviews.caret matches Some(y) ==> bare.picture == tinted(reviews.picture, y, SURFACE))
            &&& tabbed == body_painted(q, s, ui, v, look, false, down(top, 2))
        }),
{
}

/// The bar is on the selected row of the queue and of the merged pull requests too:
/// as many rows below the end of the section before as the row is down its table.
pub proof fn the_bar_is_on_its_section(
    p: Picture,
    s: SectionsView,
    i: int,
    v: Visibility,
    look: Look,
    top: int,
)
    requires
        i >= 0,
        mine_painted(p, s, Some(i), v, look, top).required <= p.limits.width,
    ensures
        ({
            let t = mine_tables(s, v, look);
            let title_w = title_within(p.limits, t.list(), row_limit(p.limits));
            let np = row_count(prs_rows(s, v)) as int;
            let nq = row_count(queue_rows(s, v)) as int;
            let nm = row_count(merged_rows(s, v)) as int;
            let b = prs_stage(
                Stage { picture: p, y: top },
                s,
                v,
                t,
                title_w,
                look.ascii,
            );
            let c = queue_stage(b, s, v, t, title_w, look.ascii);
            let caret = mine_painted(p, s, Some(i), v, look, top).caret;
            &&& np <= i < np + nq ==> caret == Some(down(b.y, i - np + 2))
            &&& np + nq <= i < np + nq + nm ==> caret == Some(down(c.y, i - np - nq + 2))
        }),
{
}

/// A section shows its table where it has one. Without rows it says so, unless
/// they are only hidden; and what is hidden is counted below.
pub proof fn a_section_shows_its_rows_or_says_why(
    p: Picture,
    title: Seq<char>,
    accent: Rgb,
    count: nat,
    note: Option<Seq<char>>,
    empty_msg: Seq<char>,
    t: TableView,
    title_w: nat,
    ascii: bool,
    top: int,
)
    ensures
        ({
            let head = with_section_header(p, title, accent, Some(dec(count)), note, ascii, top);
            &&& with_section(
                p,
                title,
                accent,
                count,
                0,
                note,
                empty_msg,
                Some(t),
                title_w,
                ascii,
                top,
            ) == with_table(head, t, title_w, ascii, down(top, 1))
            &&& with_section(
                p,
                title,
                accent,
                count,
                0,
                note,
                empty_msg,
                None,
                title_w,
                ascii,
                top,
            ) == with_dim(head, empty_msg, ROW_INDENT as int, down(top, 1))
        }),
{
}

/// The tables need as much width as the one that needs most.
pub proof fn the_widest_table_decides(l: Limits, tables: Seq<TableView>, i: int)
    requires
        0 <= i < tables.len(),
    ensures
        most_required(l, tables) >= required_width_of(l, tables[i]),
        exists|k: int|
            0 <= k < tables.len() && most_required(l, tables) == required_width_of(
                l,
                #[trigger] tables[k],
            ),
    decreases tables.len(),
{
    let t = tables.drop_last();
    let last = tables.len() - 1;
    assert(tables[last] == tables.last());
    if t.len() > 0 {
        the_widest_table_decides(
            l,
            t,
            if i < t.len() {
                i
            } else {
                0
            },
        );
        let k = choose|k: int|
            0 <= k < t.len() && most_required(l, t) == required_width_of(l, #[trigger] t[k]);
        assert(tables[k] == t[k]);
    }
}

} // verus!
