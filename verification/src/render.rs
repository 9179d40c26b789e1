//! Painting the parts of the dashboard: tables, section headers, the tab strip,
//! the search prompt, the footer and the help legend. There is one painter, so
//! the layout lives in exactly one place. Columns are measured as the canvas
//! measures them, and the gaps between them are simply not painted.

use crate::canvas::{
    ellipsized, keeping_itself, keeping_on, keeps_above, truncate, Canvas, Limits, Picture,
};
use crate::cli::Pane;
use crate::status::{
    self, in_color, in_faint, unstyled, Rgb, Status, Style, OVERLAY, PINK, SURFACE,
};
use crate::text::{dec, dec_signed, decimal, decimal_signed, same};
use vstd::prelude::*;

verus! {

broadcast use keeping_on;

/// The whole dashboard is kept within this many columns: titles are cut to make
/// every table fit.
pub const MAX_WIDTH: usize = 120;

/// The width of one-shot output.
pub const OUTPUT_WIDTH: usize = 120;

/// Below this width nothing is painted but a notice.
pub const MIN_WIDTH: u16 = 24;

/// Where the rows of a section start, behind the marker and the glyph.
pub const ROW_INDENT: u16 = 6;

/// Two blank columns separate the columns of a table.
pub const SEP: usize = 2;

/// One table cell: text, its style, and what it links to, if anything.
#[derive(Clone, Debug, PartialEq, Eq)]
pub struct Cell {
    pub text: String,
    pub style: Style,
    pub link: String,
}

/// What a table cell says.
pub struct CellView {
    pub text: Seq<char>,
    pub style: Style,
    pub link: Seq<char>,
}

impl View for Cell {
    type V = CellView;

    open spec fn view(&self) -> CellView {
        CellView { text: self.text@, style: self.style, link: self.link@ }
    }
}

/// A cell in a style.
pub open spec fn cell_of(text: Seq<char>, style: Style) -> CellView {
    CellView { text, style, link: Seq::empty() }
}

/// A cell that links somewhere, underlined so that it reads as a link.
pub open spec fn link_of(text: Seq<char>, url: Seq<char>, style: Style) -> CellView {
    CellView { text, style: Style { underline: true, ..style }, link: url }
}

/// A `#12` that links to a pull request.
pub open spec fn pr_cell(number: i64, url: Seq<char>, style: Style) -> CellView {
    link_of("#"@ + dec_signed(number as int), url, style)
}

impl Cell {
    pub fn plain(text: &str) -> (r: Cell)
        ensures
            r@ == cell_of(text@, unstyled()),
    {
        Cell::styled(text, Style::new())
    }

    pub fn styled(text: &str, style: Style) -> (r: Cell)
        ensures
            r@ == cell_of(text@, style),
    {
        Cell { text: text.to_string(), style, link: String::new() }
    }

    /// A faint, underlined link.
    pub fn link(text: &str, url: &str) -> (r: Cell)
        ensures
            r@ == link_of(text@, url@, in_faint()),
    {
        Cell::link_styled(text, url, Style::new().dimmed())
    }

    /// A link in a style, underlined so that it reads as one.
    pub fn link_styled(text: &str, url: &str, style: Style) -> (r: Cell)
        ensures
            r@ == link_of(text@, url@, style),
    {
        Cell { text: text.to_string(), style: style.underline(), link: url.to_string() }
    }

    /// A `#12` that links to a pull request.
    pub fn pr(number: i64, url: &str, style: Style) -> (r: Cell)
        ensures
            r@ == pr_cell(number, url@, style),
    {
        let mut text = "#".to_string();
        let n = decimal_signed(number);
        text.append(n.as_str());
        Cell::link_styled(text.as_str(), url, style)
    }
}

/// A text of one character.
pub fn char_text(c: char) -> (r: String)
    ensures
        r@ == seq![c],
{
    let mut s = String::new();
    s.push(c);
    proof {
        assert(s@ =~= seq![c]);
    }
    s
}

/// What is drawn for a status, in its colour.
pub open spec fn status_cell_of(s: Status, ascii: bool) -> CellView {
    cell_of(seq![status::sign(s, ascii)], in_color(status::palette(s).1))
}

/// A cell with what is drawn for a status, in its colour.
pub fn status_cell(status: Status, ascii: bool) -> (r: Cell)
    ensures
        r@ == status_cell_of(status, ascii),
{
    let text = char_text(status::glyph(status, ascii));
    Cell::styled(text.as_str(), status::fg(status::status_style(status).1))
}

/// The mark of a row that changed since the last refresh.
pub open spec fn marker(highlighted: bool, ascii: bool) -> CellView {
    if highlighted {
        cell_of(
            if ascii {
                ">"@
            } else {
                "\u{25b8}"@
            },
            Style { bold: true, ..in_color(PINK) },
        )
    } else {
        cell_of(" "@, unstyled())
    }
}

/// A leading cell that marks a row that changed since the last refresh.
pub fn change_marker(highlighted: bool, ascii: bool) -> (r: Cell)
    ensures
        r@ == marker(highlighted, ascii),
{
    if highlighted {
        let m = if ascii {
            ">"
        } else {
            "\u{25b8}"
        };
        Cell::styled(m, status::fg(PINK).bold())
    } else {
        Cell::plain(" ")
    }
}

// ---------------------------------------------------------------------------
// Tables
// ---------------------------------------------------------------------------

/// A header and the rows under it.
#[derive(Debug)]
pub struct Table {
    pub header: Vec<&'static str>,
    pub rows: Vec<Vec<Cell>>,
}

/// What a table says.
#[verifier::ext_equal]
pub struct TableView {
    pub header: Seq<Seq<char>>,
    pub rows: Seq<Seq<CellView>>,
}

impl TableView {
    /// No row has more cells than the header.
    pub open spec fn wf(self) -> bool {
        forall|r: int| 0 <= r < self.rows.len() ==> (#[trigger] self.rows[r]).len()
            <= self.header.len()
    }
}

/// The views of cells.
pub open spec fn cells_view(row: Seq<Cell>) -> Seq<CellView> {
    Seq::new(row.len(), |i: int| row[i]@)
}

/// The texts of a header.
pub open spec fn header_view(header: Seq<&'static str>) -> Seq<Seq<char>> {
    Seq::new(header.len(), |i: int| header[i]@)
}

impl View for Table {
    type V = TableView;

    open spec fn view(&self) -> TableView {
        TableView {
            header: header_view(self.header@),
            rows: Seq::new(self.rows@.len(), |r: int| cells_view(self.rows@[r]@)),
        }
    }
}

/// The rows of tables that are being built.
pub open spec fn grid_view(rows: Seq<Vec<Cell>>) -> Seq<Seq<CellView>> {
    Seq::new(rows.len(), |r: int| cells_view(rows[r]@))
}

/// The view of rows with one more.
pub proof fn grid_view_push(rows: Seq<Vec<Cell>>, row: Vec<Cell>)
    ensures
        grid_view(rows.push(row)) == grid_view(rows).push(cells_view(row@)),
{
    assert(grid_view(rows.push(row)) =~= grid_view(rows).push(cells_view(row@)));
}

/// The columns that a text takes.
pub open spec fn text_width(l: Limits, text: Seq<char>) -> nat {
    crate::canvas::display_width(text, l.grapheme, l.eaw_wide)
}

/// The larger of two numbers.
pub open spec fn larger(a: nat, b: nat) -> nat {
    if a < b {
        b
    } else {
        a
    }
}

/// The width of the widest cell in a column.
pub open spec fn cells_width(l: Limits, rows: Seq<Seq<CellView>>, c: int) -> nat
    decreases rows.len(),
{
    if rows.len() == 0 {
        0
    } else {
        let rest = cells_width(l, rows.drop_last(), c);
        if c < rows.last().len() {
            larger(rest, text_width(l, rows.last()[c].text))
        } else {
            rest
        }
    }
}

/// The width of a column: that of its header or of its widest cell.
pub open spec fn column_width(l: Limits, t: TableView, c: int) -> nat {
    larger(text_width(l, t.header[c]), cells_width(l, t.rows, c))
}

/// Where the title column is, or the number of columns when there is none.
pub open spec fn title_column(header: Seq<Seq<char>>) -> nat
    decreases header.len(),
{
    if header.len() == 0 || header[0] == "TITLE"@ {
        0
    } else {
        1 + title_column(header.drop_first())
    }
}

/// The widths of the first `n` columns but `skip`, together.
pub open spec fn widths_but(l: Limits, t: TableView, skip: int, n: int) -> nat
    decreases n,
{
    if n <= 0 {
        0
    } else {
        widths_but(l, t, skip, n - 1) + if n - 1 == skip {
            0
        } else {
            column_width(l, t, n - 1)
        }
    }
}

/// How wide a row is without its column `skip`: the other columns and the gaps.
pub open spec fn fixed_width_of(l: Limits, t: TableView, skip: int) -> nat {
    widths_but(l, t, skip, t.header.len() as int) + if t.header.len() == 0 {
        0
    } else {
        (2 * (t.header.len() - 1)) as nat
    }
}

/// The widest title of the tables.
pub open spec fn natural_title(l: Limits, tables: Seq<TableView>) -> nat
    decreases tables.len(),
{
    if tables.len() == 0 {
        0
    } else {
        let rest = natural_title(l, tables.drop_last());
        let t = tables.last();
        if title_column(t.header) < t.header.len() {
            larger(rest, column_width(l, t, title_column(t.header) as int))
        } else {
            rest
        }
    }
}

/// The most that the rows of the tables that have titles take besides them.
pub open spec fn widest_fixed(l: Limits, tables: Seq<TableView>) -> nat
    decreases tables.len(),
{
    if tables.len() == 0 {
        0
    } else {
        let rest = widest_fixed(l, tables.drop_last());
        let t = tables.last();
        if title_column(t.header) < t.header.len() {
            larger(rest, fixed_width_of(l, t, title_column(t.header) as int))
        } else {
            rest
        }
    }
}

/// The width that the tables share for their titles: that of the widest one, but
/// no more than leaves every row within `limit` columns.
pub open spec fn title_within(l: Limits, tables: Seq<TableView>, limit: nat) -> nat {
    let natural = natural_title(l, tables);
    let room = if widest_fixed(l, tables) >= limit {
        0
    } else {
        (limit - widest_fixed(l, tables)) as nat
    };
    if natural < room {
        natural
    } else {
        room
    }
}

/// The views of tables.
pub open spec fn table_views(tables: Seq<&Table>) -> Seq<TableView> {
    Seq::new(tables.len(), |i: int| tables[i]@)
}

fn col_width(s: &Canvas, table: &Table, c: usize) -> (r: usize)
    requires
        c < table.header@.len(),
    ensures
        r == column_width(s@.limits, table@, c as int),
        r <= 65535,
{
    let ghost l = s@.limits;
    let mut w: usize = s.str_width(table.header[c]) as usize;
    let mut i: usize = 0;
    proof {
        assert(table@.header[c as int] == table.header@[c as int]@);
        assert(table@.rows.take(0) =~= Seq::empty());
    }
    while i < table.rows.len()
        invariant
            i <= table.rows@.len(),
            c < table.header@.len(),
            l == s@.limits,
            w <= 65535,
            w == larger(
                text_width(l, table@.header[c as int]),
                cells_width(l, table@.rows.take(i as int), c as int),
            ),
        decreases table.rows@.len() - i,
    {
        proof {
            let t = table@.rows.take(i + 1);
            assert(t.drop_last() =~= table@.rows.take(i as int));
            assert(t.last() == cells_view(table.rows@[i as int]@));
        }
        if c < table.rows[i].len() {
            let cw: usize = s.str_width(table.rows[i][c].text.as_str()) as usize;
            if cw > w {
                w = cw;
            }
        }
        i += 1;
    }
    proof {
        assert(table@.rows.take(i as int) =~= table@.rows);
    }
    w
}

fn title_index(table: &Table) -> (r: usize)
    ensures
        r == title_column(table@.header),
        r <= table.header@.len(),
{
    let ghost h = table@.header;
    let mut i: usize = 0;
    proof {
        assert(h.skip(0) =~= h);
    }
    while i < table.header.len()
        invariant
            i <= table.header@.len(),
            h == table@.header,
            title_column(h) == i + title_column(h.skip(i as int)),
        decreases table.header@.len() - i,
    {
        assert(h.skip(i as int)[0] == table.header@[i as int]@);
        if same(table.header[i], "TITLE") {
            return i;
        }
        proof {
            assert(h.skip(i as int).drop_first() =~= h.skip(i + 1));
        }
        i += 1;
    }
    i
}

fn fixed_width(s: &Canvas, table: &Table, skip: usize) -> (r: u128)
    ensures
        r == fixed_width_of(s@.limits, table@, skip as int),
{
    let cols = table.header.len();
    let mut total: u128 = 0;
    let mut c: usize = 0;
    while c < cols
        invariant
            c <= cols,
            cols == table.header@.len(),
            total <= c * 65535,
            total == widths_but(s@.limits, table@, skip as int, c as int),
        decreases cols - c,
    {
        if c != skip {
            total = total + col_width(s, table, c) as u128;
        }
        c += 1;
    }
    if cols == 0 {
        total
    } else {
        total + 2 * (cols as u128 - 1)
    }
}

/// The title width that the tables share within `limit` columns.
fn shared_title(s: &Canvas, tables: &Vec<&Table>, limit: usize) -> (r: usize)
    ensures
        r == title_within(s@.limits, table_views(tables@), limit as nat),
{
    let ghost l = s@.limits;
    let ghost all = table_views(tables@);
    let mut natural: usize = 0;
    let mut fixed: u128 = 0;
    let mut i: usize = 0;
    proof {
        assert(all.take(0) =~= Seq::empty());
    }
    while i < tables.len()
        invariant
            i <= tables@.len(),
            l == s@.limits,
            all == table_views(tables@),
            natural == natural_title(l, all.take(i as int)),
            fixed == widest_fixed(l, all.take(i as int)),
        decreases tables@.len() - i,
    {
        let t = tables[i];
        proof {
            assert(all.take(i + 1).drop_last() =~= all.take(i as int));
            assert(all.take(i + 1).last() == t@);
        }
        let ti = title_index(t);
        if ti < t.header.len() {
            let w = col_width(s, t, ti);
            if w > natural {
                natural = w;
            }
            let f = fixed_width(s, t, ti);
            if f > fixed {
                fixed = f;
            }
        }
        i += 1;
    }
    proof {
        assert(all.take(i as int) =~= all);
    }
    let room: usize = if fixed >= limit as u128 {
        0
    } else {
        limit - fixed as usize
    };
    if natural < room {
        natural
    } else {
        room
    }
}

/// The title width that the tables share, so that their columns line up and
/// every row stays within `MAX_WIDTH` columns.
pub fn title_width(s: &Canvas, tables: &Vec<&Table>) -> (r: usize)
    ensures
        r == title_within(s@.limits, table_views(tables@), MAX_WIDTH as nat),
{
    shared_title(s, tables, MAX_WIDTH)
}

proof fn rows_stay_within_the_limit(
    l: Limits,
    tables: Seq<TableView>,
    limit: nat,
    i: int,
)
    requires
        0 <= i < tables.len(),
        title_column(tables[i].header) < tables[i].header.len(),
        widest_fixed(l, tables) <= limit,
    ensures
        fixed_width_of(l, tables[i], title_column(tables[i].header) as int) + title_within(
            l,
            tables,
            limit,
        ) <= limit,
{
    fixed_is_widest(l, tables, i);
}

proof fn fixed_is_widest(l: Limits, tables: Seq<TableView>, i: int)
    requires
        0 <= i < tables.len(),
        title_column(tables[i].header) < tables[i].header.len(),
    ensures
        fixed_width_of(l, tables[i], title_column(tables[i].header) as int) <= widest_fixed(
            l,
            tables,
        ),
    decreases tables.len(),
{
    if i < tables.len() - 1 {
        fixed_is_widest(l, tables.drop_last(), i);
    }
}

/// How the tables of a view line up.
#[derive(Clone, Copy, Debug, PartialEq, Eq)]
pub struct TableAlignment {
    /// The width of the title column.
    pub title: usize,
}

/// The width that rows may take on a canvas.
pub open spec fn row_limit(l: Limits) -> nat {
    if l.width < MAX_WIDTH {
        l.width as nat
    } else {
        MAX_WIDTH as nat
    }
}

/// The alignment of tables on a canvas.
pub fn table_alignment(s: &Canvas, tables: &Vec<&Table>) -> (r: TableAlignment)
    ensures
        r.title == title_within(s@.limits, table_views(tables@), row_limit(s@.limits)),
{
    let w = s.width();
    let limit: usize = if (w as usize) < MAX_WIDTH {
        w as usize
    } else {
        MAX_WIDTH
    };
    TableAlignment { title: shared_title(s, tables, limit) }
}

/// Whether the titles of a table are cut.
pub open spec fn is_compact(l: Limits, t: TableView, title: nat) -> bool {
    title_column(t.header) < t.header.len() && column_width(
        l,
        t,
        title_column(t.header) as int,
    ) > title
}

/// Whether an alignment cuts the titles of a table.
pub fn table_is_compact_aligned(s: &Canvas, table: &Table, alignment: &TableAlignment) -> (r: bool)
    ensures
        r == is_compact(s@.limits, table@, alignment.title as nat),
{
    let ti = title_index(table);
    ti < table.header.len() && col_width(s, table, ti) > alignment.title
}

/// The width that a table needs for all its columns but the titles.
pub open spec fn required_width_of(l: Limits, t: TableView) -> nat {
    let w = fixed_width_of(l, t, title_column(t.header) as int);
    if w > 65535 {
        65535
    } else {
        w
    }
}

/// The width that a table needs for all its columns but the titles.
pub fn table_required_width(s: &Canvas, table: &Table) -> (r: u16)
    ensures
        r == required_width_of(s@.limits, table@),
{
    let w = fixed_width(s, table, title_index(table));
    if w > 65535 {
        65535
    } else {
        w as u16
    }
}

/// The row `n` rows below `y`. Rows past the last one that a surface can have
/// all count as the one behind it, where nothing is painted.
pub open spec fn down(y: int, n: int) -> int {
    if y + n > 65535 {
        65535
    } else {
        y + n
    }
}

/// The row `n` rows below `y`.
pub fn below(y: u16, n: usize) -> (r: u16)
    ensures
        r == down(y as int, n as int),
{
    if n > 65535 - y as usize {
        65535
    } else {
        y + n as u16
    }
}

/// Going down in two steps is going down in one.
pub proof fn down_adds(y: int, m: int, n: int)
    requires
        0 <= y <= 65535,
        m >= 0,
        n >= 0,
    ensures
        down(down(y, m), n) == down(y, m + n),
{
}

/// The width of a column, with titles at a given width.
pub open spec fn width_at(l: Limits, t: TableView, title_w: nat, i: int) -> nat {
    if i == title_column(t.header) {
        title_w
    } else {
        column_width(l, t, i)
    }
}

/// Where a column starts: behind the columns before it and their gaps.
pub open spec fn start_of(l: Limits, t: TableView, title_w: nat, i: int) -> nat
    decreases i,
{
    if i <= 0 {
        0
    } else {
        start_of(l, t, title_w, i - 1) + width_at(l, t, title_w, i - 1) + 2
    }
}

/// The columns of a row line up one behind the other and end within the limit:
/// a row of a table that shares its title width is as wide as its fixed columns
/// and the title together.
pub proof fn every_row_ends_within_the_limit(
    l: Limits,
    tables: Seq<TableView>,
    limit: nat,
    i: int,
)
    requires
        0 <= i < tables.len(),
        title_column(tables[i].header) < tables[i].header.len(),
        widest_fixed(l, tables) <= limit,
    ensures
        ({
            let t = tables[i];
            let title_w = title_within(l, tables, limit);
            start_of(l, t, title_w, t.header.len() as int) <= limit + 2
        }),
{
    let t = tables[i];
    let title_w = title_within(l, tables, limit);
    rows_stay_within_the_limit(l, tables, limit, i);
    start_is_sum(l, t, title_w, t.header.len() as int);
}

proof fn start_is_sum(l: Limits, t: TableView, title_w: nat, n: int)
    requires
        n >= 0,
    ensures
        start_of(l, t, title_w, n) == widths_but(l, t, title_column(t.header) as int, n) + 2 * n
            + if title_column(t.header) < n {
            title_w
        } else {
            0
        },
    decreases n,
{
    if n > 0 {
        start_is_sum(l, t, title_w, n - 1);
    }
}

/// No cell but a title reaches into the gap behind its column.
pub proof fn cells_stay_in_their_columns(l: Limits, t: TableView, title_w: nat, r: int, c: int)
    requires
        0 <= r < t.rows.len(),
        0 <= c < t.rows[r].len(),
        c != title_column(t.header),
    ensures
        start_of(l, t, title_w, c) + text_width(l, t.rows[r][c].text) + 2 <= start_of(
            l,
            t,
            title_w,
            c + 1,
        ),
{
    cell_is_no_wider(l, t.rows, r, c);
}

proof fn cell_is_no_wider(l: Limits, rows: Seq<Seq<CellView>>, r: int, c: int)
    requires
        0 <= r < rows.len(),
        0 <= c < rows[r].len(),
    ensures
        text_width(l, rows[r][c].text) <= cells_width(l, rows, c),
    decreases rows.len(),
{
    if r < rows.len() - 1 {
        cell_is_no_wider(l, rows.drop_last(), r, c);
    }
}

/// Where a column starts, as a column of the canvas.
pub open spec fn x_of(l: Limits, t: TableView, title_w: nat, i: int) -> int {
    start_of(l, t, title_w, i) as int % 65536
}

/// The picture once the first `n` headers are painted.
pub open spec fn with_header(p: Picture, t: TableView, title_w: nat, y: int, n: int) -> Picture
    decreases n,
{
    if n <= 0 {
        p
    } else {
        let q = with_header(p, t, title_w, y, n - 1);
        if t.header[n - 1].len() == 0 {
            q
        } else {
            q.put(
                x_of(p.limits, t, title_w, n - 1),
                y,
                t.header[n - 1],
                Style { bold: true, ..unstyled() },
                Seq::empty(),
            )
        }
    }
}

/// The text of a cell as it is painted: titles are cut to their column.
pub open spec fn cell_text(
    t: TableView,
    title_w: nat,
    ascii: bool,
    cell: CellView,
    i: int,
) -> Seq<char> {
    if i == title_column(t.header) {
        ellipsized(cell.text, title_w, ascii)
    } else {
        cell.text
    }
}

/// The picture once the first `n` cells of a row are painted.
pub open spec fn with_cells(
    p: Picture,
    t: TableView,
    title_w: nat,
    ascii: bool,
    row: Seq<CellView>,
    y: int,
    n: int,
) -> Picture
    decreases n,
{
    if n <= 0 {
        p
    } else {
        let q = with_cells(p, t, title_w, ascii, row, y, n - 1);
        q.put(
            x_of(p.limits, t, title_w, n - 1),
            y,
            cell_text(t, title_w, ascii, row[n - 1], n - 1),
            row[n - 1].style,
            row[n - 1].link,
        )
    }
}

/// The picture once the first `n` rows under the header are painted.
pub open spec fn with_rows(
    p: Picture,
    t: TableView,
    title_w: nat,
    ascii: bool,
    top: int,
    n: int,
) -> Picture
    decreases n,
{
    if n <= 0 {
        p
    } else {
        with_cells(
            with_rows(p, t, title_w, ascii, top, n - 1),
            t,
            title_w,
            ascii,
            t.rows[n - 1],
            down(top, n),
            t.rows[n - 1].len() as int,
        )
    }
}

/// The picture once a table is painted: a bold header, and the rows under it.
pub open spec fn with_table(p: Picture, t: TableView, title_w: nat, ascii: bool, top: int) -> Picture {
    with_rows(
        with_header(p, t, title_w, top, t.header.len() as int),
        t,
        title_w,
        ascii,
        top,
        t.rows.len() as int,
    )
}

/// Paint a table from row `top` on, with titles cut to `title_w` columns.
/// Columns are left-aligned with two blank columns between them. Returns the
/// next free row.
pub fn paint_table(s: &mut Canvas, table: &Table, title_w: usize, ascii: bool, top: u16) -> (r: u16)
    requires
        table@.wf(),
    ensures
        final(s)@ == with_table(old(s)@, table@, title_w as nat, ascii, top as int),
        final(s)@.limits == old(s)@.limits,
        keeps_above(old(s)@, final(s)@, top as int),
        r == down(top as int, table.rows@.len() as int + 1),
{
    let cols = table.header.len();
    let title_idx = title_index(table);
    let ghost p = s@;
    let ghost t = table@;
    let ghost tw = title_w as nat;

    let mut xs: Vec<u16> = Vec::new();
    let mut acc: u16 = 0;
    let mut i: usize = 0;
    while i < cols
        invariant
            i <= cols,
            cols == table.header@.len(),
            title_idx == title_column(t.header),
            t == table@,
            tw == title_w,
            p == s@,
            acc == x_of(p.limits, t, tw, i as int),
            xs@.len() == i,
            forall|k: int| 0 <= k < i ==> #[trigger] xs@[k] == x_of(p.limits, t, tw, k),
        decreases cols - i,
    {
        xs.push(acc);
        let w: usize = if i == title_idx {
            title_w
        } else {
            col_width(s, table, i)
        };
        acc = ((acc as u64 + (w % 65536) as u64 + 2) % 65536) as u16;
        i += 1;
    }

    let bold = Style::new().bold();
    let mut i: usize = 0;
    proof {
        keeping_itself(p, top as int);
    }
    while i < cols
        invariant
            i <= cols,
            cols == table.header@.len(),
            t == table@,
            xs@.len() == cols,
            forall|k: int| 0 <= k < cols ==> #[trigger] xs@[k] == x_of(p.limits, t, tw, k),
            bold == (Style { bold: true, ..unstyled() }),
            s@.limits == p.limits,
            keeps_above(p, s@, top as int),
            s@ == with_header(p, t, tw, top as int, i as int),
        decreases cols - i,
    {
        let h = table.header[i];
        assert(t.header[i as int] == h@);
        if !same(h, "") {
            proof {
                reveal_strlit("");
                assert(h@.len() == 0 ==> h@ =~= ""@);
            }
            s.text(xs[i], top, h, bold);
        } else {
            proof {
                reveal_strlit("");
            }
        }
        i += 1;
    }

    let ghost q = s@;
    let mut r: usize = 0;
    while r < table.rows.len()
        invariant
            r <= table.rows@.len(),
            cols == table.header@.len(),
            title_idx == title_column(t.header),
            t == table@,
            t.wf(),
            tw == title_w,
            xs@.len() == cols,
            forall|k: int| 0 <= k < cols ==> #[trigger] xs@[k] == x_of(p.limits, t, tw, k),
            s@.limits == p.limits,
            q.limits == p.limits,
            keeps_above(p, s@, top as int),
            s@ == with_rows(q, t, tw, ascii, top as int, r as int),
        decreases table.rows@.len() - r,
    {
        let y = below(below(top, 1), r);
        let row = &table.rows[r];
        let ghost before = s@;
        proof {
            down_adds(top as int, 1, r as int);
            assert(t.rows[r as int] == cells_view(row@));
        }
        let mut i: usize = 0;
        while i < row.len()
            invariant
                i <= row@.len() <= cols,
                title_idx == title_column(t.header),
                tw == title_w,
                xs@.len() == cols,
                forall|k: int| 0 <= k < cols ==> #[trigger] xs@[k] == x_of(p.limits, t, tw, k),
                s@.limits == p.limits,
                before.limits == p.limits,
                y >= top,
                keeps_above(p, s@, top as int),
                s@ == with_cells(before, t, tw, ascii, cells_view(row@), y as int, i as int),
            decreases row@.len() - i,
        {
            let cell = &row[i];
            assert(cells_view(row@)[i as int] == cell@);
            if i == title_idx {
                let text = truncate(cell.text.as_str(), title_w, ascii);
                s.linked(xs[i], y, text.as_str(), cell.style, cell.link.as_str());
            } else {
                s.linked(xs[i], y, cell.text.as_str(), cell.style, cell.link.as_str());
            }
            i += 1;
        }
        r += 1;
    }
    proof {
        down_adds(top as int, 1, r as int);
    }
    below(below(top, 1), table.rows.len())
}

/// Paint a table with an alignment. Returns the next free row.
pub fn paint_table_aligned(
    s: &mut Canvas,
    table: &Table,
    alignment: &TableAlignment,
    ascii: bool,
    top: u16,
) -> (r: u16)
    requires
        table@.wf(),
    ensures
        final(s)@ == with_table(old(s)@, table@, alignment.title as nat, ascii, top as int),
        final(s)@.limits == old(s)@.limits,
        keeps_above(old(s)@, final(s)@, top as int),
        r == down(top as int, table.rows@.len() as int + 1),
{
    paint_table(s, table, alignment.title, ascii, top)
}

/// A table written out on its own: in colour, or as plain text.
pub fn render_table(table: &Table, styled: bool) -> (r: String)
    requires
        table@.wf(),
    ensures
        r@ == table_text(table@, styled),
{
    let n = table.rows.len();
    let height: u16 = if n >= 65535 {
        65535
    } else {
        n as u16 + 1
    };
    let mut s = Canvas::new(MAX_WIDTH as u16, height);
    let mut tables: Vec<&Table> = Vec::new();
    tables.push(table);
    let w = title_width(&s, &tables);
    proof {
        assert(table_views(tables@) =~= seq![table@]);
    }
    paint_table(&mut s, table, w, !styled, 0);
    if styled {
        s.encode(crate::canvas::Profile::TrueColor)
    } else {
        s.encode(crate::canvas::Profile::Disabled)
    }
}

/// What a table is written out as on its own.
pub open spec fn table_text(t: TableView, styled: bool) -> Seq<char> {
    let l = Limits {
        width: 120,
        height: if t.rows.len() >= 65535 {
            65535
        } else {
            (t.rows.len() + 1) as u16
        },
        grapheme: false,
        eaw_wide: false,
    };
    with_table(
        Picture::empty(l),
        t,
        title_within(l, seq![t], MAX_WIDTH as nat),
        !styled,
        0,
    ).encoded(
        if styled {
            crate::canvas::Profile::TrueColor
        } else {
            crate::canvas::Profile::Disabled
        },
    )
}

// ---------------------------------------------------------------------------
// One-liners
// ---------------------------------------------------------------------------

/// The picture once a faint line is painted.
pub open spec fn with_dim(p: Picture, msg: Seq<char>, x: int, y: int) -> Picture {
    p.put(x, y, msg, in_faint(), Seq::empty())
}

/// Paint a faint line at row `y`, from the left edge. Returns the row below.
pub fn paint_dim(s: &mut Canvas, msg: &str, y: u16) -> (r: u16)
    ensures
        final(s)@ == with_dim(old(s)@, msg@, 0, y as int),
        final(s)@.limits == old(s)@.limits,
        keeps_above(old(s)@, final(s)@, y as int),
        r == down(y as int, 1),
{
    paint_dim_at(s, msg, 0, y)
}

/// Paint a faint line at row `y`, from column `x`. Returns the row below.
pub fn paint_dim_at(s: &mut Canvas, msg: &str, x: u16, y: u16) -> (r: u16)
    ensures
        final(s)@ == with_dim(old(s)@, msg@, x as int, y as int),
        final(s)@.limits == old(s)@.limits,
        keeps_above(old(s)@, final(s)@, y as int),
        r == down(y as int, 1),
{
    s.text(x, y, msg, Style::new().dimmed());
    below(y, 1)
}

/// The column `n` columns behind `x`; past the last column there is none.
pub open spec fn right(x: int, n: int) -> int {
    if x + n > 65535 {
        65535
    } else {
        x + n
    }
}

/// The column `n` columns behind `x`.
pub fn behind(x: u16, n: usize) -> (r: u16)
    ensures
        r == right(x as int, n as int),
{
    if n > 65535 - x as usize {
        65535
    } else {
        x + n as u16
    }
}

/// A text of several parts in a row, and where it ends.
pub struct Pen {
    pub picture: Picture,
    pub x: int,
}

impl Pen {
    /// Paint a text after a gap.
    pub open spec fn write(self, gap: int, y: int, text: Seq<char>, style: Style) -> Pen {
        let x = right(self.x, gap);
        Pen {
            picture: self.picture.put(x, y, text, style, Seq::empty()),
            x: self.picture.end(x, y, text, style, Seq::empty()),
        }
    }
}

/// A pen at the left edge, or at column `x`.
pub open spec fn pen(p: Picture, x: int) -> Pen {
    Pen { picture: p, x }
}

/// The text of a section header in ASCII.
pub open spec fn plain_header(title: Seq<char>, count: Option<Seq<char>>) -> Seq<char> {
    match count {
        Some(c) => title + " ("@ + c + ")"@,
        None => title,
    }
}

/// The picture once a section header is painted: an accent bar with the title,
/// the count, and a note, each of the last two faint and two columns on. In
/// ASCII the title and its count are plain text.
pub open spec fn with_section_header(
    p: Picture,
    title: Seq<char>,
    accent: Rgb,
    count: Option<Seq<char>>,
    note: Option<Seq<char>>,
    ascii: bool,
    y: int,
) -> Picture {
    let head = if ascii {
        pen(p, 0).write(0, y, plain_header(title, count), unstyled())
    } else {
        pen(p, 0).write(
            0,
            y,
            "\u{258c} "@ + title,
            Style { bold: true, ..in_color(accent) },
        )
    };
    let counted = match count {
        Some(c) => if ascii {
            head
        } else {
            head.write(2, y, c, in_faint())
        },
        None => head,
    };
    match note {
        Some(n) => counted.write(2, y, n, in_faint()).picture,
        None => counted.picture,
    }
}

/// Paint a section header at row `y`. Returns the row below.
pub fn paint_header(
    s: &mut Canvas,
    title: &str,
    accent: Rgb,
    count: Option<&str>,
    note: Option<&str>,
    ascii: bool,
    y: u16,
) -> (r: u16)
    ensures
        final(s)@ == with_section_header(
            old(s)@,
            title@,
            accent,
            crate::text::opt_str_view(count),
            crate::text::opt_str_view(note),
            ascii,
            y as int,
        ),
        final(s)@.limits == old(s)@.limits,
        keeps_above(old(s)@, final(s)@, y as int),
        r == down(y as int, 1),
{
    let mut x: u16;
    if ascii {
        let mut text = title.to_string();
        if let Some(c) = count {
            text.append(" (");
            text.append(c);
            text.append(")");
        }
        x = s.text(0, y, text.as_str(), Style::new());
    } else {
        let mut text = "\u{258c} ".to_string();
        text.append(title);
        x = s.text(0, y, text.as_str(), status::fg(accent).bold());
        if let Some(c) = count {
            x = s.text(behind(x, 2), y, c, Style::new().dimmed());
        }
    }
    if let Some(n) = note {
        s.text(behind(x, 2), y, n, Style::new().dimmed());
    }
    below(y, 1)
}

/// The refresh hint of the footer.
pub open spec fn refresh_hint(next: Seq<char>, refreshing: bool) -> Seq<char> {
    if refreshing {
        "refreshing"@
    } else {
        "refresh (next in "@ + next + ")"@
    }
}

/// The style of the keys in the footer.
pub open spec fn key_style() -> Style {
    Style { bold: true, ..in_color(OVERLAY) }
}

/// The picture once the footer is painted. While refreshing, `r` does nothing
/// and is faint. Where something is left out, the footer says that there is more.
pub open spec fn with_footer(
    p: Picture,
    next: Seq<char>,
    refreshing: bool,
    more: bool,
    ascii: bool,
    y: int,
) -> Picture {
    if ascii {
        pen(p, 0).write(
            0,
            y,
            "r "@ + refresh_hint(next, refreshing) + " - ? help"@ + if more {
                " (more)"@
            } else {
                ""@
            },
            unstyled(),
        ).picture
    } else {
        let keys = pen(p, 0).write(
            0,
            y,
            "r"@,
            if refreshing {
                in_faint()
            } else {
                key_style()
            },
        ).write(1, y, refresh_hint(next, refreshing), in_faint()).write(
            0,
            y,
            " - "@,
            in_faint(),
        ).write(0, y, "?"@, key_style()).write(1, y, "help"@, in_faint());
        if more {
            keys.write(1, y, "(more)"@, in_faint()).picture
        } else {
            keys.picture
        }
    }
}

/// Paint the footer with the keys and the time until the next refresh at row
/// `y`: `r refresh (next in 5m) - ? help`. Returns the row below.
pub fn paint_footer(
    s: &mut Canvas,
    next: &str,
    refreshing: bool,
    more: bool,
    ascii: bool,
    y: u16,
) -> (r: u16)
    ensures
        final(s)@ == with_footer(old(s)@, next@, refreshing, more, ascii, y as int),
        final(s)@.limits == old(s)@.limits,
        keeps_above(old(s)@, final(s)@, y as int),
        r == down(y as int, 1),
{
    let mut hint = "refresh (next in ".to_string();
    if refreshing {
        hint = "refreshing".to_string();
    } else {
        hint.append(next);
        hint.append(")");
    }
    if ascii {
        let mut text = "r ".to_string();
        text.append(hint.as_str());
        text.append(" - ? help");
        if more {
            text.append(" (more)");
        } else {
            text.append("");
        }
        s.text(0, y, text.as_str(), Style::new());
    } else {
        let key = status::fg(OVERLAY).bold();
        let dim = Style::new().dimmed();
        let first = if refreshing {
            dim
        } else {
            key
        };
        let x = s.text(0, y, "r", first);
        let x = s.text(behind(x, 1), y, hint.as_str(), dim);
        let x = s.text(x, y, " - ", dim);
        let x = s.text(x, y, "?", key);
        let x = s.text(behind(x, 1), y, "help", dim);
        if more {
            s.text(behind(x, 1), y, "(more)", dim);
        }
    }
    below(y, 1)
}

/// The style of a tab.
pub open spec fn tab_style(active: bool, ascii: bool) -> Style {
    if ascii {
        unstyled()
    } else if active {
        Style { bold: true, underline: true, ..unstyled() }
    } else {
        in_faint()
    }
}

/// The text of a tab; in ASCII the active one is in brackets.
pub open spec fn tab_text(name: Seq<char>, active: bool, ascii: bool) -> Seq<char> {
    if ascii && active {
        "["@ + name + "]"@
    } else {
        name
    }
}

/// The picture once the tab strip is painted.
pub open spec fn with_tabs(p: Picture, view: Pane, ascii: bool, y: int) -> Picture {
    let mine = view == Pane::Mine;
    pen(p, 0).write(0, y, tab_text("Mine"@, mine, ascii), tab_style(mine, ascii)).write(
        2,
        y,
        tab_text("Reviews"@, !mine, ascii),
        tab_style(!mine, ascii),
    ).picture
}

fn tab(name: &str, active: bool, ascii: bool) -> (r: (String, Style))
    ensures
        r.0@ == tab_text(name@, active, ascii),
        r.1 == tab_style(active, ascii),
{
    let text = if ascii && active {
        let mut t = "[".to_string();
        t.append(name);
        t.append("]");
        t
    } else {
        name.to_string()
    };
    let style = if ascii {
        Style::new()
    } else if active {
        Style::new().bold().underline()
    } else {
        Style::new().dimmed()
    };
    (text, style)
}

/// Paint the tab strip at row `y`, the active view set apart. Returns the row
/// below.
pub fn paint_tabs(s: &mut Canvas, view: Pane, ascii: bool, y: u16) -> (r: u16)
    ensures
        final(s)@ == with_tabs(old(s)@, view, ascii, y as int),
        final(s)@.limits == old(s)@.limits,
        keeps_above(old(s)@, final(s)@, y as int),
        r == down(y as int, 1),
{
    let is_mine = view == Pane::Mine;
    let mine = tab("Mine", is_mine, ascii);
    let reviews = tab("Reviews", !is_mine, ascii);
    let x = s.text(0, y, mine.0.as_str(), mine.1);
    s.text(behind(x, 2), y, reviews.0.as_str(), reviews.1);
    below(y, 1)
}

/// The count of matches behind the search prompt.
pub open spec fn match_count(matches: nat) -> Seq<char> {
    dec(matches) + if matches == 1 {
        " match"@
    } else {
        " matches"@
    }
}

/// The pen behind the query of the search prompt, where the cursor rests.
pub open spec fn prompt_pen(p: Picture, query: Seq<char>, ascii: bool, y: int) -> Pen {
    pen(p, 0).write(
        0,
        y,
        "/"@,
        if ascii {
            unstyled()
        } else {
            key_style()
        },
    ).write(0, y, query, unstyled())
}

/// The picture once the search prompt is painted.
pub open spec fn with_prompt(
    p: Picture,
    query: Seq<char>,
    matches: nat,
    ascii: bool,
    y: int,
) -> Picture {
    prompt_pen(p, query, ascii, y).write(2, y, match_count(matches), in_faint()).picture
}

/// Paint the search prompt at row `y`: the query, then how many rows match it.
/// Returns the row below, and where the cursor rests.
pub fn paint_search_prompt(s: &mut Canvas, query: &str, matches: usize, ascii: bool, y: u16) -> (r: (
    u16,
    (u16, u16),
))
    ensures
        final(s)@ == with_prompt(old(s)@, query@, matches as nat, ascii, y as int),
        final(s)@.limits == old(s)@.limits,
        keeps_above(old(s)@, final(s)@, y as int),
        r.0 == down(y as int, 1),
        r.1.0 == prompt_pen(old(s)@, query@, ascii, y as int).x,
        r.1.1 == y,
{
    let key = if ascii {
        Style::new()
    } else {
        status::fg(OVERLAY).bold()
    };
    let x = s.text(0, y, "/", key);
    let x = s.text(x, y, query, Style::new());
    let mut count = decimal(matches as u128);
    if matches == 1 {
        count.append(" match");
    } else {
        count.append(" matches");
    }
    s.text(behind(x, 2), y, count.as_str(), Style::new().dimmed());
    (below(y, 1), (x, y))
}

/// Highlight a row, from edge to edge.
pub fn highlight_row(s: &mut Canvas, row: u16)
    ensures
        final(s)@ == crate::canvas::tinted(old(s)@, row as int, SURFACE),
        final(s)@.limits == old(s)@.limits,
        keeps_above(old(s)@, final(s)@, row as int),
{
    s.tint_row(row, SURFACE);
}

// ---------------------------------------------------------------------------
// The help legend
// ---------------------------------------------------------------------------

/// How many rows the legend takes: a header, a row for each status, one for no
/// status, and one for each merge state.
pub fn help_height() -> (r: usize)
    ensures
        r == 15,
{
    15
}

/// The picture once a legend row is painted: a glyph, then what it means.
pub open spec fn with_legend(
    p: Picture,
    glyph: Seq<char>,
    style: Style,
    meaning: Seq<char>,
    y: int,
) -> Picture {
    pen(p, 2).write(0, y, glyph, style).write(2, y, meaning, in_faint()).picture
}

fn legend_row(s: &mut Canvas, glyph: &str, style: Style, meaning: &str, y: u16)
    ensures
        final(s)@ == with_legend(old(s)@, glyph@, style, meaning@, y as int),
        final(s)@.limits == old(s)@.limits,
        keeps_above(old(s)@, final(s)@, y as int),
{
    let x = s.text(2, y, glyph, style);
    s.text(behind(x, 2), y, meaning, Style::new().dimmed());
}

/// The picture once the first `n` statuses are explained.
pub open spec fn with_statuses(p: Picture, ascii: bool, top: int, n: int) -> Picture
    decreases n,
{
    if n <= 0 {
        p
    } else {
        let st = status::ORDER[n - 1];
        with_legend(
            with_statuses(p, ascii, top, n - 1),
            seq![status::sign(st, ascii)],
            in_color(status::palette(st).1),
            status::meaning(st),
            down(top, n - 1),
        )
    }
}

/// The picture once a merge state is explained, by its glyph or its label.
pub open spec fn with_state(p: Picture, state: Seq<char>, ascii: bool, y: int) -> Picture {
    if ascii {
        let q = pen(p, 2).write(0, y, status::label_of_state(state), status::style_of_state(state));
        if status::meaning_of_state(state) == ""@ {
            q.picture
        } else {
            q.write(0, y, " \u{2014} "@ + status::meaning_of_state(state), in_faint()).picture
        }
    } else {
        with_legend(
            p,
            seq![status::glyph_of_state(state)],
            status::style_of_state(state),
            status::meaning_of_state(state),
            y,
        )
    }
}

fn state_row(s: &mut Canvas, state: &str, ascii: bool, y: u16)
    ensures
        final(s)@ == with_state(old(s)@, state@, ascii, y as int),
        final(s)@.limits == old(s)@.limits,
        keeps_above(old(s)@, final(s)@, y as int),
{
    let meaning = status::state_meaning(state);
    let style = status::state_style(state);
    if ascii {
        let x = s.text(2, y, status::state_label(state), style);
        if !same(meaning, "") {
            let mut text = " \u{2014} ".to_string();
            text.append(meaning);
            s.text(x, y, text.as_str(), Style::new().dimmed());
        }
    } else {
        let glyph = char_text(status::state_glyph(state));
        legend_row(s, glyph.as_str(), style, meaning, y);
    }
}

/// The picture once the first `n` merge states are explained.
pub open spec fn with_states(p: Picture, ascii: bool, top: int, n: int) -> Picture
    decreases n,
{
    if n <= 0 {
        p
    } else {
        with_state(
            with_states(p, ascii, top, n - 1),
            status::STATE_ORDER[n - 1]@,
            ascii,
            down(top, n - 1),
        )
    }
}

/// The picture once the legend is painted: every status, the mark for none, and
/// every merge state.
pub open spec fn with_help(p: Picture, ascii: bool, top: int) -> Picture {
    let head = with_section_header(p, "Help"@, OVERLAY, None, None, ascii, top);
    let first = with_statuses(head, ascii, down(top, 1), 5);
    let none = first.put(2, down(top, 6), "- no checks reported yet"@, in_faint(), Seq::empty());
    with_states(none, ascii, down(top, 7), 8)
}

/// Paint the help legend from row `top` on: a complete reference of every status
/// glyph and every merge state. Returns the next free row.
pub fn paint_help(s: &mut Canvas, ascii: bool, top: u16) -> (r: u16)
    ensures
        final(s)@ == with_help(old(s)@, ascii, top as int),
        final(s)@.limits == old(s)@.limits,
        keeps_above(old(s)@, final(s)@, top as int),
        r == down(top as int, 15),
{
    let ghost p = s@;
    let y = paint_header(s, "Help", OVERLAY, None, None, ascii, top);
    let ghost head = s@;
    let order = status::ORDER;
    let mut i: usize = 0;
    while i < 5
        invariant
            i <= 5,
            order == status::ORDER,
            y == down(top as int, 1),
            s@.limits == p.limits,
            keeps_above(p, s@, top as int),
            s@ == with_statuses(head, ascii, y as int, i as int),
        decreases 5 - i,
    {
        let st = order[i];
        let glyph = char_text(status::glyph(st, ascii));
        let style = status::fg(status::status_style(st).1);
        legend_row(s, glyph.as_str(), style, status::status_meaning(st), below(y, i));
        i += 1;
    }
    s.text(2, below(y, 5), "- no checks reported yet", Style::new().dimmed());
    let ghost none = s@;
    let top_states = below(y, 6);
    let states = status::STATE_ORDER;
    let mut j: usize = 0;
    while j < 8
        invariant
            j <= 8,
            states == status::STATE_ORDER,
            top_states == down(top as int, 7),
            s@.limits == p.limits,
            keeps_above(p, s@, top as int),
            s@ == with_states(none, ascii, top_states as int, j as int),
        decreases 8 - j,
    {
        state_row(s, states[j], ascii, below(top_states, j));
        j += 1;
    }
    below(top_states, 8)
}

/// The titles share what they need, as far as there is room: they are cut only
/// where the rows would not end within the limit otherwise, and then all the room
/// is used.
pub proof fn titles_are_cut_only_for_want_of_room(l: Limits, tables: Seq<TableView>, limit: nat)
    ensures
        title_within(l, tables, limit) <= natural_title(l, tables),
        widest_fixed(l, tables) + natural_title(l, tables) <= limit ==> title_within(
            l,
            tables,
            limit,
        ) == natural_title(l, tables),
        widest_fixed(l, tables) <= limit < widest_fixed(l, tables) + natural_title(l, tables)
            ==> widest_fixed(l, tables) + title_within(l, tables, limit) == limit,
        widest_fixed(l, tables) > limit ==> title_within(l, tables, limit) == 0,
{
}

/// A row is set in as wide a space as the canvas has, and no more than the output
/// may have.
pub proof fn rows_are_as_wide_as_they_may(l: Limits)
    ensures
        row_limit(l) <= l.width,
        row_limit(l) <= MAX_WIDTH,
        row_limit(l) == l.width || row_limit(l) == MAX_WIDTH,
{
}

/// Only titles are cut: every other cell is painted as it is.
pub proof fn only_titles_are_cut(t: TableView, title_w: nat, ascii: bool, cell: CellView, i: int)
    requires
        0 <= i < t.header.len(),
        forall|k: int| 0 <= k < i ==> (#[trigger] t.header[k]) != "TITLE"@,
    ensures
        t.header[i] != "TITLE"@ ==> cell_text(t, title_w, ascii, cell, i) == cell.text,
        t.header[i] == "TITLE"@ ==> cell_text(t, title_w, ascii, cell, i) == ellipsized(
            cell.text,
            title_w,
            ascii,
        ),
{
    the_title_column_is_found(t.header, i);
}

proof fn the_title_column_is_found(header: Seq<Seq<char>>, i: int)
    requires
        0 <= i < header.len(),
        forall|k: int| 0 <= k < i ==> (#[trigger] header[k]) != "TITLE"@,
    ensures
        header[i] == "TITLE"@ <==> title_column(header) == i,
    decreases i,
{
    if i > 0 {
        assert(header[0] != "TITLE"@);
        let t = header.drop_first();
        assert forall|k: int| 0 <= k < i - 1 implies (#[trigger] t[k]) != "TITLE"@ by {
            assert(header[k + 1] != "TITLE"@);
        }
        the_title_column_is_found(t, i - 1);
    }
}

/// The footer tells when the next refresh comes, or that one is on.
pub proof fn the_footer_tells_the_next_refresh(next: Seq<char>)
    ensures
        refresh_hint(next, true) == "refreshing"@,
        refresh_hint(next, false) == "refresh (next in "@ + next + ")"@,
{
}

/// The prompt tells how many rows match.
pub proof fn the_prompt_counts_the_matches(n: nat)
    ensures
        n == 1 ==> match_count(n) == dec(n) + " match"@,
        n != 1 ==> match_count(n) == dec(n) + " matches"@,
{
}

/// The active view is set apart among the tabs: in brackets in ASCII, and bold and
/// underlined else.
pub proof fn the_active_tab_is_set_apart(name: Seq<char>)
    ensures
        tab_text(name, true, true) == "["@ + name + "]"@,
        tab_text(name, false, true) == name,
        tab_text(name, true, false) == name && tab_text(name, false, false) == name,
        tab_style(true, false).bold && tab_style(true, false).underline,
        !tab_style(false, false).bold && tab_style(false, false).faint,
        tab_style(true, true) == tab_style(false, true),
{
}

/// A section header tells the count of its rows in brackets behind its title.
pub proof fn a_header_tells_the_count(title: Seq<char>, count: Seq<char>)
    ensures
        plain_header(title, Some(count)) == title + " ("@ + count + ")"@,
        plain_header(title, None) == title,
{
}

} // verus!
