//! The shipments section: my commit counts for the next version and for the last
//! releases, a labelled row each.

use crate::canvas::{keeping_on, keeps_above, Canvas, Limits, Picture};
use crate::commits::{Bucket, BucketView, CommitStats, Count, ReleaseRowView, StatsView};
use crate::order::rows_view;
use crate::render::{
    behind, below, cell_of, down, larger, link_of, paint_dim_at, paint_header, right, text_width,
    with_dim, with_section_header, Cell, CellView, Pen,
};
use crate::status::{in_faint, unstyled, Style, BLUE};
use crate::text::{dec, decimal, opt_view};
use crate::timefmt::{age_at, age_seen, Timestamp};
use vstd::prelude::*;

verus! {

broadcast use keeping_on;

/// A row of the shipments.
#[derive(Debug)]
pub struct ShipRow {
    pub label: String,
    /// What the label links to, if anything.
    pub url: Option<String>,
    pub value: String,
    /// How long ago the release was published, if known.
    pub age: Option<String>,
}

/// What a row of the shipments says.
pub struct ShipView {
    pub label: Seq<char>,
    pub url: Option<Seq<char>>,
    pub value: Seq<char>,
    pub age: Option<Seq<char>>,
}

impl View for ShipRow {
    type V = ShipView;

    open spec fn view(&self) -> ShipView {
        ShipView {
            label: self.label@,
            url: opt_view(self.url),
            value: self.value@,
            age: opt_view(self.age),
        }
    }
}

/// A count, with a `+` when it is a lower bound.
pub open spec fn counted(n: nat, capped: bool) -> Seq<char> {
    if capped {
        dec(n) + "+"@
    } else {
        dec(n)
    }
}

fn count_text(n: u128, capped: bool) -> (r: String)
    ensures
        r@ == counted(n as nat, capped),
{
    let mut s = decimal(n);
    if capped {
        s.append("+");
    }
    s
}

/// My commits in the first `n` releases, together.
pub open spec fn released(releases: Seq<ReleaseRowView>, n: int) -> nat
    decreases n,
{
    if n <= 0 {
        0
    } else {
        released(releases, n - 1) + releases[n - 1].bucket.count.mine as nat
    }
}

/// My commits in everything that is shown.
pub open spec fn total_of(stats: StatsView) -> nat {
    released(stats.releases, stats.releases.len() as int) + match stats.upcoming {
        Some(b) => b.count.mine as nat,
        None => 0,
    }
}

/// Whether one of the counts is a lower bound, and so their total.
pub open spec fn total_capped(stats: StatsView) -> bool {
    (stats.upcoming matches Some(b) && b.count.capped) || exists|i: int|
        0 <= i < stats.releases.len() && (#[trigger] stats.releases[i]).bucket.count.capped
}

/// The count of a bucket, or a dash without one.
pub open spec fn value_of(b: Option<BucketView>) -> Seq<char> {
    match b {
        Some(x) => counted(x.count.mine as nat, x.count.capped),
        None => "\u{2014}"@,
    }
}

/// The row of a release.
pub open spec fn release_row(r: ReleaseRowView, now: Timestamp) -> ShipView {
    ShipView {
        label: r.tag,
        url: Some(r.bucket.url),
        value: value_of(Some(r.bucket)),
        age: match r.published_at {
            Some(_) => Some(age_seen(now, r.published_at)),
            None => None,
        },
    }
}

/// The row of the upcoming version, which has no age.
pub open spec fn upcoming_row(stats: StatsView) -> ShipView {
    ShipView {
        label: "upcoming"@,
        url: match stats.upcoming {
            Some(b) => Some(b.url),
            None => None,
        },
        value: value_of(stats.upcoming),
        age: None,
    }
}

/// The rows: the upcoming version, then the releases, newest first.
pub open spec fn ship_rows(stats: StatsView, now: Timestamp) -> Seq<ShipView> {
    Seq::new(
        stats.releases.len() + 1,
        |i: int|
            if i == 0 {
                upcoming_row(stats)
            } else {
                release_row(stats.releases[i - 1], now)
            },
    )
}

/// The width of the widest of the labels of the first `n` rows.
pub open spec fn widest_label(l: Limits, rows: Seq<ShipView>, n: int) -> nat
    decreases n,
{
    if n <= 0 {
        0
    } else {
        larger(widest_label(l, rows, n - 1), text_width(l, rows[n - 1].label))
    }
}

/// The width of the widest of the values of the first `n` rows.
pub open spec fn widest_value(l: Limits, rows: Seq<ShipView>, n: int) -> nat
    decreases n,
{
    if n <= 0 {
        0
    } else {
        larger(widest_value(l, rows, n - 1), text_width(l, rows[n - 1].value))
    }
}

proof fn widest_is_widest(l: Limits, rows: Seq<ShipView>, n: int, i: int)
    requires
        0 <= i < n,
    ensures
        text_width(l, rows[i].label) <= widest_label(l, rows, n),
        text_width(l, rows[i].value) <= widest_value(l, rows, n),
    decreases n,
{
    if i < n - 1 {
        widest_is_widest(l, rows, n - 1, i);
    }
}

/// The label of a row: the upcoming version is set apart in italics, and one
/// with a page links to it.
pub open spec fn label_cell(r: ShipView, first: bool, ascii: bool) -> CellView {
    let style = if first && !ascii {
        Style { italic: true, ..unstyled() }
    } else {
        unstyled()
    };
    match r.url {
        Some(u) => link_of(r.label, u, style),
        None => cell_of(r.label, style),
    }
}

/// The picture once a row is painted: the label right-aligned behind a gutter of
/// two columns, the value, and the age, so that each lines up in a column.
pub open spec fn with_row(
    p: Picture,
    r: ShipView,
    first: bool,
    label_w: nat,
    value_w: nat,
    ascii: bool,
    y: int,
) -> Picture {
    let l = p.limits;
    let cell = label_cell(r, first, ascii);
    let x = right(2, label_w - text_width(l, r.label));
    let label = Pen {
        picture: p.put(x, y, cell.text, cell.style, cell.link),
        x: p.end(x, y, cell.text, cell.style, cell.link),
    };
    let value = label.write(0, y, ": "@ + r.value, unstyled());
    match r.age {
        Some(age) => value.write(
            value_w - text_width(l, r.value) + 3,
            y,
            age,
            in_faint(),
        ).picture,
        None => value.picture,
    }
}

/// The picture once the first `n` rows are painted.
pub open spec fn with_first_rows(
    p: Picture,
    rows: Seq<ShipView>,
    label_w: nat,
    value_w: nat,
    ascii: bool,
    top: int,
    n: int,
) -> Picture
    decreases n,
{
    if n <= 0 {
        p
    } else {
        with_row(
            with_first_rows(p, rows, label_w, value_w, ascii, top, n - 1),
            rows[n - 1],
            n == 1,
            label_w,
            value_w,
            ascii,
            down(top, n - 1),
        )
    }
}

/// The picture once the shipments are painted.
pub open spec fn with_commits(
    p: Picture,
    stats: StatsView,
    ascii: bool,
    now: Timestamp,
    top: int,
) -> Picture {
    if !stats.available {
        with_dim(p, "Commit stats unavailable."@, 2, top)
    } else {
        let rows = ship_rows(stats, now);
        let n = rows.len() as int;
        with_first_rows(
            with_section_header(
                p,
                "My Shipments"@,
                BLUE,
                Some(counted(total_of(stats), total_capped(stats))),
                None,
                ascii,
                top,
            ),
            rows,
            widest_label(p.limits, rows, n),
            widest_value(p.limits, rows, n),
            ascii,
            down(top, 1),
            n,
        )
    }
}

/// How many rows the shipments take.
pub open spec fn commits_span(stats: StatsView) -> nat {
    if stats.available {
        stats.releases.len() + 2
    } else {
        1
    }
}

/// The row of the selection. It counts the rows with a page: without an upcoming
/// version the first of them is the first release.
pub open spec fn commits_caret(stats: StatsView, selected: Option<int>, top: int) -> Option<int> {
    match selected {
        Some(k) => {
            let i = if stats.upcoming is Some {
                k
            } else {
                k + 1
            };
            if stats.available && 0 <= i <= stats.releases.len() {
                Some(down(top, i + 1))
            } else {
                None
            }
        },
        None => None,
    }
}

fn bucket_value(b: &Option<Bucket>) -> (r: String)
    ensures
        r@ == value_of(
            match *b {
                Some(x) => Some(x@),
                None => None,
            },
        ),
{
    match b {
        Some(x) => count_text(x.count.mine as u128, x.count.capped),
        None => "\u{2014}".to_string(),
    }
}

fn ship_list(stats: &CommitStats, now: Timestamp) -> (r: Vec<ShipRow>)
    requires
        now.valid(),
    ensures
        rows_view(r@) == ship_rows(stats@, now),
{
    let ghost want = ship_rows(stats@, now);
    let mut rows: Vec<ShipRow> = Vec::new();
    let first = ShipRow {
        label: "upcoming".to_string(),
        url: match &stats.upcoming {
            Some(b) => Some(b.url.clone()),
            None => None,
        },
        value: bucket_value(&stats.upcoming),
        age: None,
    };
    proof {
        assert(first@ == want[0]);
        crate::order::rows_view_push(rows@, first);
    }
    rows.push(first);
    let mut i: usize = 0;
    proof {
        assert(rows_view(rows@) =~= want.take(1));
    }
    while i < stats.releases.len()
        invariant
            i <= stats.releases@.len(),
            now.valid(),
            want == ship_rows(stats@, now),
            rows_view(rows@) == want.take(i + 1),
        decreases stats.releases@.len() - i,
    {
        let r = &stats.releases[i];
        let row = ShipRow {
            label: r.tag.clone(),
            url: Some(r.bucket.url.clone()),
            value: count_text(r.bucket.count.mine as u128, r.bucket.count.capped),
            age: if r.published_at.is_some() {
                Some(age_at(now, &r.published_at))
            } else {
                None
            },
        };
        proof {
            assert(stats@.releases[i as int] == r@);
            assert(row@ == want[i + 1]);
            crate::order::rows_view_push(rows@, row);
            assert(want.take(i + 1).push(row@) =~= want.take(i + 2));
        }
        rows.push(row);
        i += 1;
    }
    proof {
        assert(want.take(i + 1) =~= want);
    }
    rows
}

fn total(stats: &CommitStats) -> (r: (u128, bool))
    ensures
        r.0 == total_of(stats@),
        r.1 == total_capped(stats@),
{
    let mut n: u128 = 0;
    let mut capped = false;
    if let Some(b) = &stats.upcoming {
        n = b.count.mine as u128;
        capped = b.count.capped;
    }
    let ghost up: nat = n as nat;
    let ghost up_capped = capped;
    let ghost rel = stats@.releases;
    let mut i: usize = 0;
    while i < stats.releases.len()
        invariant
            i <= stats.releases@.len(),
            rel == stats@.releases,
            up <= usize::MAX,
            up == match stats@.upcoming {
                Some(b) => b.count.mine as nat,
                None => 0,
            },
            up_capped == (stats@.upcoming matches Some(b) && b.count.capped),
            n == released(rel, i as int) + up,
            n <= (i + 1) * usize::MAX,
            capped == (up_capped || exists|k: int|
                0 <= k < i && (#[trigger] rel[k]).bucket.count.capped),
        decreases stats.releases@.len() - i,
    {
        let c: Count = stats.releases[i].bucket.count;
        proof {
            assert(rel[i as int].bucket.count == c);
            assert((i + 1) * usize::MAX + usize::MAX == (i + 2) * usize::MAX) by (nonlinear_arith);
            assert((i + 2) * usize::MAX <= (usize::MAX + 1) * usize::MAX) by (nonlinear_arith)
                requires
                    i + 2 <= usize::MAX + 1,
            ;
            assert((usize::MAX + 1) * usize::MAX <= u128::MAX) by (nonlinear_arith)
                requires
                    usize::MAX <= u64::MAX,
            ;
        }
        n = n + c.mine as u128;
        capped = capped || c.capped;
        i += 1;
    }
    (n, capped)
}

fn paint_row(
    s: &mut Canvas,
    row: &ShipRow,
    first: bool,
    label_w: usize,
    value_w: usize,
    ascii: bool,
    y: u16,
)
    requires
        text_width(old(s)@.limits, row@.label) <= label_w <= 65535,
        text_width(old(s)@.limits, row@.value) <= value_w <= 65535,
    ensures
        final(s)@ == with_row(
            old(s)@,
            row@,
            first,
            label_w as nat,
            value_w as nat,
            ascii,
            y as int,
        ),
        final(s)@.limits == old(s)@.limits,
        keeps_above(old(s)@, final(s)@, y as int),
{
    let style = if first && !ascii {
        Style::new().italic()
    } else {
        Style::new()
    };
    let cell = match &row.url {
        Some(url) => Cell::link_styled(row.label.as_str(), url.as_str(), style),
        None => Cell::styled(row.label.as_str(), style),
    };
    proof {
        assert(cell@ == label_cell(row@, first, ascii));
    }
    let x = behind(2, label_w - s.str_width(row.label.as_str()) as usize);
    let value_cols = s.str_width(row.value.as_str()) as usize;
    let end = s.linked(x, y, cell.text.as_str(), cell.style, cell.link.as_str());
    let mut value = ": ".to_string();
    value.append(row.value.as_str());
    let end = s.text(end, y, value.as_str(), Style::new());
    if let Some(age) = &row.age {
        s.text(behind(end, value_w - value_cols + 3), y, age.as_str(), Style::new().dimmed());
    }
}

/// Paint the shipments from row `top` on. Returns the next free row, and the row
/// of the selection, if it is in this section.
pub fn paint_commits(
    s: &mut Canvas,
    stats: &CommitStats,
    selected: Option<usize>,
    ascii: bool,
    now: Timestamp,
    top: u16,
) -> (r: (u16, Option<u16>))
    requires
        now.valid(),
    ensures
        final(s)@ == with_commits(old(s)@, stats@, ascii, now, top as int),
        final(s)@.limits == old(s)@.limits,
        keeps_above(old(s)@, final(s)@, top as int),
        r.0 == down(top as int, commits_span(stats@) as int),
        r.1 matches Some(y) ==> y >= top,
        match r.1 {
            Some(y) => commits_caret(stats@, as_int(selected), top as int) == Some(y as int),
            None => commits_caret(stats@, as_int(selected), top as int) is None,
        },
{
    if !stats.available {
        return (paint_dim_at(s, "Commit stats unavailable.", 2, top), None);
    }
    let ghost p = s@;
    let (n, capped) = total(stats);
    let text = count_text(n, capped);
    let y = paint_header(s, "My Shipments", BLUE, Some(text.as_str()), None, ascii, top);
    let ghost q = s@;
    let rows = ship_list(stats, now);
    let ghost rv = rows_view(rows@);
    proof {
        assert(rv.len() == stats@.releases.len() + 1);
    }
    let mut label_w: usize = 0;
    let mut value_w: usize = 0;
    let mut i: usize = 0;
    while i < rows.len()
        invariant
            i <= rows@.len(),
            rv == rows_view(rows@),
            s@ == q,
            q.limits == p.limits,
            label_w <= 65535,
            value_w <= 65535,
            label_w == widest_label(p.limits, rv, i as int),
            value_w == widest_value(p.limits, rv, i as int),
        decreases rows@.len() - i,
    {
        assert(rv[i as int] == rows@[i as int]@);
        let lw = s.str_width(rows[i].label.as_str()) as usize;
        if lw > label_w {
            label_w = lw;
        }
        let vw = s.str_width(rows[i].value.as_str()) as usize;
        if vw > value_w {
            value_w = vw;
        }
        i += 1;
    }
    let mut i: usize = 0;
    while i < rows.len()
        invariant
            i <= rows@.len(),
            rv == rows_view(rows@),
            s@.limits == p.limits,
            q.limits == p.limits,
            label_w <= 65535,
            value_w <= 65535,
            label_w == widest_label(p.limits, rv, rows@.len() as int),
            value_w == widest_value(p.limits, rv, rows@.len() as int),
            y >= top,
            keeps_above(p, s@, top as int),
            s@ == with_first_rows(
                q,
                rv,
                label_w as nat,
                value_w as nat,
                ascii,
                y as int,
                i as int,
            ),
        decreases rows@.len() - i,
    {
        proof {
            assert(rv[i as int] == rows@[i as int]@);
            widest_is_widest(p.limits, rv, rows@.len() as int, i as int);
        }
        paint_row(s, &rows[i], i == 0, label_w, value_w, ascii, below(y, i));
        i += 1;
    }
    let caret = match selected {
        Some(k) => {
            let limit = stats.releases.len();
            if stats.upcoming.is_some() {
                if k <= limit {
                    Some(below(below(top, 1), k))
                } else {
                    None
                }
            } else if k < limit {
                Some(below(below(top, 2), k))
            } else {
                None
            }
        },
        None => None,
    };
    (below(y, rows.len()), caret)
}

/// A selection as a mathematical one.
pub open spec fn as_int(selected: Option<usize>) -> Option<int> {
    match selected {
        Some(k) => Some(k as int),
        None => None,
    }
}

/// The total counts each release and the upcoming version once: with one release
/// more it is higher by that release's count.
pub proof fn the_total_adds_up(stats: StatsView, r: ReleaseRowView)
    ensures
        total_of(StatsView { releases: stats.releases.push(r), ..stats }) == total_of(stats)
            + r.bucket.count.mine,
        stats.releases.len() == 0 && stats.upcoming is None ==> total_of(stats) == 0,
        stats.releases.len() == 0 ==> (stats.upcoming matches Some(b) ==> total_of(stats)
            == b.count.mine),
        total_capped(StatsView { releases: stats.releases.push(r), ..stats }) <==> total_capped(
            stats,
        ) || r.bucket.count.capped,
{
    let more = stats.releases.push(r);
    let n = stats.releases.len() as int;
    the_first_count_alike(stats.releases, more, n);
    assert(more[n] == r);
    if total_capped(stats) && !(stats.upcoming matches Some(b) && b.count.capped) {
        let i = choose|i: int| 0 <= i < n && (#[trigger] stats.releases[i]).bucket.count.capped;
        assert(more[i].bucket.count.capped);
    }
    if exists|i: int| 0 <= i < more.len() && (#[trigger] more[i]).bucket.count.capped {
        let i = choose|i: int| 0 <= i < more.len() && (#[trigger] more[i]).bucket.count.capped;
        if i < n {
            assert(stats.releases[i].bucket.count.capped);
        }
    }
}

proof fn the_first_count_alike(a: Seq<ReleaseRowView>, b: Seq<ReleaseRowView>, n: int)
    requires
        n <= a.len() && n <= b.len(),
        forall|i: int| 0 <= i < n ==> a[i] == b[i],
    ensures
        released(a, n) == released(b, n),
    decreases n,
{
    if n > 0 {
        the_first_count_alike(a, b, n - 1);
    }
}

/// Each version has its row, the upcoming one first and the releases in their
/// order, with its own count, page and age. A lower bound is marked as one.
pub proof fn each_version_has_its_row(stats: StatsView, now: Timestamp, i: int)
    requires
        0 <= i < stats.releases.len(),
    ensures
        ({
            let rows = ship_rows(stats, now);
            let r = stats.releases[i];
            &&& rows.len() == stats.releases.len() + 1
            &&& rows[i + 1].label == r.tag
            &&& rows[i + 1].url == Some(r.bucket.url)
            &&& !r.bucket.count.capped ==> rows[i + 1].value == dec(r.bucket.count.mine as nat)
            &&& r.bucket.count.capped ==> rows[i + 1].value == dec(r.bucket.count.mine as nat)
                + "+"@
            &&& r.published_at is None ==> rows[i + 1].age is None
            &&& r.published_at is Some ==> rows[i + 1].age == Some(age_seen(now, r.published_at))
            &&& stats.upcoming matches Some(b) ==> rows[0].url == Some(b.url) && (!b.count.capped
                ==> rows[0].value == dec(b.count.mine as nat))
            &&& stats.upcoming is None ==> rows[0].url is None
            &&& rows[0].age is None
        }),
{
}

/// The bar is on the version whose page is meant: the row that it is on is that of
/// a version with just that page.
pub proof fn the_bar_is_on_the_selected_version(stats: StatsView, now: Timestamp, k: int, top: int)
    requires
        0 <= k < crate::nav::shipment_links(Some(stats)).len(),
        0 <= top,
        top + stats.releases.len() + 1 <= 65535,
    ensures
        exists|i: int|
            0 <= i < ship_rows(stats, now).len() && (#[trigger] ship_rows(stats, now)[i]).url
                == Some(crate::nav::shipment_links(Some(stats))[k]) && commits_caret(
                stats,
                Some(k),
                top,
            ) == Some(top + 1 + i),
{
    let rows = ship_rows(stats, now);
    let links = crate::nav::shipment_links(Some(stats));
    if stats.upcoming is Some {
        if k == 0 {
            assert(rows[0].url == Some(links[0]));
        } else {
            assert(rows[k].url == Some(links[k]));
        }
    } else {
        assert(rows[k + 1].url == Some(links[k]));
    }
}

} // verus!
