//! The surface that the dashboard is painted on: a grid of styled cells in an
//! off-screen text buffer.

use crate::status::{unstyled, Rgb, Style};
use uncurses::buffer::{SurfaceMut, TextBuffer};
use uncurses::color::Color;
use uncurses::layout::Position;
use uncurses::style::{AttrFlags, UnderlineStyle};
use uncurses::text::{Encode, TextSurface, WidthMode};
use vstd::prelude::*;

verus! {

/// How much styling survives when a surface is written out.
#[derive(Clone, Copy, Debug, PartialEq, Eq, Structural)]
pub enum Profile {
    /// Plain text.
    Disabled,
    /// Attributes without colours.
    Ascii,
    /// The 16 basic colours.
    Ansi,
    /// The 256-colour palette.
    Ansi256,
    /// 24-bit colours.
    TrueColor,
}

/// The size of a surface, and how it measures text.
#[derive(Clone, Copy, Debug, PartialEq, Eq)]
pub struct Limits {
    pub width: u16,
    pub height: u16,
    /// Whether a cluster of characters is measured as one, or as their sum.
    pub grapheme: bool,
    /// Whether characters of ambiguous width count as wide.
    pub eaw_wide: bool,
}

/// One cell of the grid. A wide character owns the cell it starts in, and the
/// ones that it covers besides have no text and no columns.
pub struct GridCell {
    pub text: Seq<char>,
    pub columns: nat,
    pub style: Style,
    /// What the cell links to; nothing if empty.
    pub link: Seq<char>,
}

/// An unstyled space.
pub open spec fn blank() -> GridCell {
    GridCell { text: seq![' '], columns: 1, style: unstyled(), link: Seq::empty() }
}

/// `uncurses::buffer::TextBuffer`, a grid of cells that can be painted on. What is
/// in it is said by `cells_of` and `limits_of`.
#[verifier::external_type_specification]
#[verifier::external_body]
pub struct ExTextBuffer(TextBuffer);

/// The cells of a text buffer, row by row from the top.
pub uninterp spec fn cells_of(b: TextBuffer) -> Seq<GridCell>;

/// The size of a text buffer, and how it measures text.
pub uninterp spec fn limits_of(b: TextBuffer) -> Limits;

/// The cells after painting a text, and the column behind its last cell.
pub uninterp spec fn painted(
    cells: Seq<GridCell>,
    limits: Limits,
    x: int,
    y: int,
    text: Seq<char>,
    style: Style,
    link: Seq<char>,
) -> (Seq<GridCell>, int);

/// How many columns a text takes, by the two rules of measuring.
pub uninterp spec fn display_width(text: Seq<char>, grapheme: bool, eaw_wide: bool) -> nat;

/// What a grid of so many columns and rows is written out as.
pub uninterp spec fn encoded(cells: Seq<GridCell>, width: int, height: int, profile: Profile) -> Seq<
    char,
>;

/// What is left of a text that is cut to so many columns with a tail.
pub uninterp spec fn shortened(text: Seq<char>, max: nat, tail: Seq<char>) -> Seq<char>;

/// A grid brought to another size: cells that both sizes have stay, and new
/// ones are blank.
pub open spec fn resized(
    cells: Seq<GridCell>,
    width: int,
    height: int,
    new_width: int,
    new_height: int,
) -> Seq<GridCell> {
    Seq::new(
        (new_width * new_height) as nat,
        |i: int|
            if i % new_width < width && i / new_width < height {
                cells[i / new_width * width + i % new_width]
            } else {
                blank()
            },
    )
}

/// `TextBuffer::new` with `with_width_mode` and `with_eaw_wide`: a grid of blank
/// cells of the given size that measures text as told.
#[verifier::external_body]
fn new_buffer(limits: Limits) -> (r: TextBuffer)
    ensures
        limits_of(r) == limits,
        cells_of(r) == Seq::new((limits.width * limits.height) as nat, |i: int| blank()),
{
    let mode = [WidthMode::Wc, WidthMode::Grapheme][usize::from(limits.grapheme)];
    TextBuffer::new(limits.width, limits.height).with_width_mode(mode).with_eaw_wide(
        limits.eaw_wide,
    )
}

/// `TextBuffer::width`, `height`, `width_mode` and `eaw_wide`. The grid has a cell
/// for each column of each row.
#[verifier::external_body]
fn buffer_limits(b: &TextBuffer) -> (r: Limits)
    ensures
        r == limits_of(*b),
        cells_of(*b).len() == r.width * r.height,
{
    Limits {
        width: b.width(),
        height: b.height(),
        grapheme: b.width_mode() == WidthMode::Grapheme,
        eaw_wide: b.eaw_wide(),
    }
}

/// `TextSurface::set_str`: paints a text in one style and with one link, clipped
/// to the surface. What it paints, and where it stops, depend on the grid, its
/// limits, and what is painted where. It keeps every cell above its row.
#[verifier::external_body]
fn set_str(b: &mut TextBuffer, x: u16, y: u16, text: &str, style: Style, link: &str) -> (r: u16)
    ensures
        limits_of(*final(b)) == limits_of(*old(b)),
        (cells_of(*final(b)), r as int) == painted(
            cells_of(*old(b)),
            limits_of(*old(b)),
            x as int,
            y as int,
            text@,
            style,
            link@,
        ),
        cells_of(*final(b)).len() == cells_of(*old(b)).len(),
        forall|i: int|
            0 <= i < cells_of(*old(b)).len() && i < y * limits_of(*old(b)).width
                ==> #[trigger] cells_of(*final(b))[i] == cells_of(*old(b))[i],
{
    let mut attrs = AttrFlags::empty();
    attrs.set(AttrFlags::BOLD, style.bold);
    attrs.set(AttrFlags::FAINT, style.faint);
    attrs.set(AttrFlags::ITALIC, style.italic);
    let line = [UnderlineStyle::None, UnderlineStyle::Single][usize::from(style.underline)];
    let fg = style.fg.map(|c| Color::Rgb(c.0, c.1, c.2));
    let bg = style.bg.map(|c| Color::Rgb(c.0, c.1, c.2));
    let s = uncurses::style::Style::new().fg(fg).bg(bg).attrs(attrs).underline_style(line);
    b.set_str((x, y), text, s.link(link, "")).x
}

/// `TextSurface::str_width`: the columns that a text takes on the surface.
#[verifier::external_body]
fn str_width(b: &TextBuffer, text: &str) -> (r: u16)
    ensures
        r == display_width(text@, limits_of(*b).grapheme, limits_of(*b).eaw_wide),
{
    b.str_width(text)
}

/// `SurfaceMut::cell_mut`, through which the background of one cell is set; a
/// position outside the surface has no cell.
#[verifier::external_body]
fn set_background(b: &mut TextBuffer, x: u16, y: u16, rgb: Rgb)
    ensures
        limits_of(*final(b)) == limits_of(*old(b)),
        x < limits_of(*old(b)).width && y < limits_of(*old(b)).height ==> cells_of(*final(b))
            == cells_of(*old(b)).update(
            y * limits_of(*old(b)).width + x,
            with_background(cells_of(*old(b))[y * limits_of(*old(b)).width + x], rgb),
        ),
        x >= limits_of(*old(b)).width || y >= limits_of(*old(b)).height ==> cells_of(*final(b))
            == cells_of(*old(b)),
{
    if let Some(cell) = b.cell_mut(Position::new(x, y)) {
        cell.style.bg = Some(Color::Rgb(rgb.0, rgb.1, rgb.2));
    }
}

/// `TextBuffer::resize`: brings the grid to another size.
#[verifier::external_body]
fn resize_buffer(b: &mut TextBuffer, width: u16, height: u16)
    ensures
        limits_of(*final(b)) == (Limits { width, height, ..limits_of(*old(b)) }),
        cells_of(*final(b)) == resized(
            cells_of(*old(b)),
            limits_of(*old(b)).width as int,
            limits_of(*old(b)).height as int,
            width as int,
            height as int,
        ),
{
    b.resize(width, height)
}

/// `Encode::display_with`: the surface as text with escape sequences, as far as
/// the profile keeps styling.
#[verifier::external_body]
fn encode_buffer(b: &TextBuffer, profile: Profile) -> (r: String)
    ensures
        r@ == encoded(
            cells_of(*b),
            limits_of(*b).width as int,
            limits_of(*b).height as int,
            profile,
        ),
{
    let p = match profile {
        Profile::Disabled => uncurses::color::Profile::Disabled,
        Profile::Ascii => uncurses::color::Profile::Ascii,
        Profile::Ansi => uncurses::color::Profile::Ansi,
        Profile::Ansi256 => uncurses::color::Profile::Ansi256,
        Profile::TrueColor => uncurses::color::Profile::TrueColor,
    };
    b.display_with(p).to_string()
}

/// `uncurses::ansi::truncate::truncate`: cuts a text to so many columns, the
/// tail marking the cut. At no columns nothing is left.
#[verifier::external_body]
fn cut(text: &str, max: usize, tail: &str) -> (r: String)
    ensures
        r@ == shortened(text@, max as nat, tail@),
        max == 0 ==> r@ == Seq::<char>::empty(),
{
    uncurses::ansi::truncate::truncate(text, max, tail)
}

/// A cell with another background.
pub open spec fn with_background(c: GridCell, rgb: Rgb) -> GridCell {
    GridCell { style: Style { bg: Some(rgb), ..c.style }, ..c }
}

/// What is on a canvas.
pub struct Picture {
    pub cells: Seq<GridCell>,
    pub limits: Limits,
}

impl Picture {
    /// The grid has a cell for each column of each row.
    pub open spec fn wf(self) -> bool {
        self.cells.len() == self.limits.width * self.limits.height
    }

    /// An empty canvas.
    pub open spec fn empty(limits: Limits) -> Picture {
        Picture {
            cells: Seq::new((limits.width * limits.height) as nat, |i: int| blank()),
            limits,
        }
    }

    /// The picture once a text is painted on it.
    pub open spec fn put(
        self,
        x: int,
        y: int,
        text: Seq<char>,
        style: Style,
        link: Seq<char>,
    ) -> Picture {
        Picture { cells: painted(self.cells, self.limits, x, y, text, style, link).0, ..self }
    }

    /// The column behind a text that is painted on the picture.
    pub open spec fn end(
        self,
        x: int,
        y: int,
        text: Seq<char>,
        style: Style,
        link: Seq<char>,
    ) -> int {
        painted(self.cells, self.limits, x, y, text, style, link).1
    }

    /// The columns that a text takes.
    pub open spec fn text_width(self, text: Seq<char>) -> nat {
        display_width(text, self.limits.grapheme, self.limits.eaw_wide)
    }

    /// The cell at a position.
    pub open spec fn at(self, x: int, y: int) -> GridCell {
        self.cells[y * self.limits.width + x]
    }

    /// The picture brought to another size.
    pub open spec fn resize(self, width: u16, height: u16) -> Picture {
        Picture {
            cells: resized(
                self.cells,
                self.limits.width as int,
                self.limits.height as int,
                width as int,
                height as int,
            ),
            limits: Limits { width, height, ..self.limits },
        }
    }

    /// What the picture is written out as.
    pub open spec fn encoded(self, profile: Profile) -> Seq<char> {
        encoded(self.cells, self.limits.width as int, self.limits.height as int, profile)
    }
}

/// A grid of styled cells to paint on.
pub struct Canvas {
    pub buffer: TextBuffer,
}

impl View for Canvas {
    type V = Picture;

    open spec fn view(&self) -> Picture {
        Picture { cells: cells_of(self.buffer), limits: limits_of(self.buffer) }
    }
}

impl Canvas {
    /// An empty canvas that measures each character by itself, and ambiguous
    /// ones as narrow.
    pub fn new(width: u16, height: u16) -> (r: Canvas)
        ensures
            r@ == Picture::empty(Limits { width, height, grapheme: false, eaw_wide: false }),
    {
        Canvas::with_limits(Limits { width, height, grapheme: false, eaw_wide: false })
    }

    /// An empty canvas.
    pub fn with_limits(limits: Limits) -> (r: Canvas)
        ensures
            r@ == Picture::empty(limits),
    {
        Canvas { buffer: new_buffer(limits) }
    }

    /// The size of the canvas, and how it measures text.
    pub fn limits(&self) -> (r: Limits)
        ensures
            r == self@.limits,
            self@.wf(),
    {
        buffer_limits(&self.buffer)
    }

    /// The columns of the canvas.
    pub fn width(&self) -> (r: u16)
        ensures
            r == self@.limits.width,
            self@.wf(),
    {
        buffer_limits(&self.buffer).width
    }

    /// Paint a text in a style; returns the column behind it.
    pub fn text(&mut self, x: u16, y: u16, text: &str, style: Style) -> (r: u16)
        ensures
            final(self)@ == old(self)@.put(x as int, y as int, text@, style, Seq::empty()),
            r == old(self)@.end(x as int, y as int, text@, style, Seq::empty()),
            keeps_above(old(self)@, final(self)@, y as int),
    {
        proof {
            reveal(keeps_above);
            reveal_strlit("");
            assert(""@ =~= Seq::<char>::empty());
        }
        set_str(&mut self.buffer, x, y, text, style, "")
    }

    /// Paint a text that links somewhere; returns the column behind it.
    pub fn linked(&mut self, x: u16, y: u16, text: &str, style: Style, link: &str) -> (r: u16)
        ensures
            final(self)@ == old(self)@.put(x as int, y as int, text@, style, link@),
            r == old(self)@.end(x as int, y as int, text@, style, link@),
            keeps_above(old(self)@, final(self)@, y as int),
    {
        proof {
            reveal(keeps_above);
        }
        set_str(&mut self.buffer, x, y, text, style, link)
    }

    /// The columns that a text takes.
    pub fn str_width(&self, text: &str) -> (r: u16)
        ensures
            r == self@.text_width(text@),
    {
        str_width(&self.buffer, text)
    }

    /// Give every cell of a row a background.
    pub fn tint_row(&mut self, y: u16, rgb: Rgb)
        ensures
            final(self)@ == tinted(old(self)@, y as int, rgb),
            keeps_above(old(self)@, final(self)@, y as int),
    {
        proof {
            tinting_keeps_above(self@, y as int, rgb);
        }
        let w = self.width();
        let h = self.limits().height;
        let ghost before = self@;
        if y >= h {
            proof {
                assert(tinted(before, y as int, rgb).cells =~= before.cells) by {
                    assert forall|i: int|
                        #![trigger before.cells[i]]
                        0 <= i < before.cells.len() implies i / (w as int) != y by {
                        row_below(i, w as int, h as int, y as int);
                    }
                }
            }
            return ;
        }
        let mut x: u16 = 0;
        while x < w
            invariant
                x <= w,
                w == before.limits.width,
                h == before.limits.height,
                y < h,
                before.wf(),
                self@.limits == before.limits,
                self@.cells == Seq::new(
                    before.cells.len(),
                    |i: int|
                        if y * w <= i < y * w + x {
                            with_background(before.cells[i], rgb)
                        } else {
                            before.cells[i]
                        },
                ),
            decreases w - x,
        {
            proof {
                assert(y * w + x < w * h) by (nonlinear_arith)
                    requires
                        y < h,
                        x < w,
                ;
                assert(y * w >= 0) by (nonlinear_arith);
            }
            let ghost was = self@.cells;
            set_background(&mut self.buffer, x, y, rgb);
            proof {
                assert(was[y * w + x] == before.cells[y * w + x]);
                assert(self@.cells =~= Seq::new(
                    before.cells.len(),
                    |i: int|
                        if y * w <= i < y * w + x + 1 {
                            with_background(before.cells[i], rgb)
                        } else {
                            before.cells[i]
                        },
                ));
            }
            x += 1;
        }
        proof {
            if w == 0 {
                assert(w * h == 0) by (nonlinear_arith)
                    requires
                        w == 0,
                ;
            }
            assert forall|i: int|
                #![trigger before.cells[i]]
                0 <= i < before.cells.len() implies (i / (w as int) == y <==> y * w <= i < y * w
                + w) by {
                in_row(i, w as int, y as int);
            }
            assert(self@.cells =~= tinted(before, y as int, rgb).cells);
        }
    }

    /// Bring the canvas to another size, keeping what both sizes have.
    pub fn resize(&mut self, width: u16, height: u16)
        ensures
            final(self)@ == old(self)@.resize(width, height),
    {
        resize_buffer(&mut self.buffer, width, height)
    }

    /// Write the canvas out as text.
    pub fn encode(&self, profile: Profile) -> (r: String)
        ensures
            r@ == self@.encoded(profile),
    {
        encode_buffer(&self.buffer, profile)
    }
}

/// A picture with a background on every cell of one row.
pub open spec fn tinted(p: Picture, y: int, rgb: Rgb) -> Picture {
    Picture {
        cells: Seq::new(
            p.cells.len(),
            |i: int|
                if i / p.limits.width as int == y {
                    with_background(p.cells[i], rgb)
                } else {
                    p.cells[i]
                },
        ),
        ..p
    }
}

/// Whether every cell above a row is still as it was.
#[verifier::opaque]
pub open spec fn keeps_above(before: Picture, after: Picture, y: int) -> bool {
    &&& after.limits == before.limits
    &&& after.cells.len() == before.cells.len()
    &&& forall|i: int|
        0 <= i < before.cells.len() && i < y * before.limits.width
            ==> #[trigger] after.cells[i] == before.cells[i]
}

/// What keeps the cells above a row, and then those above a lower one, keeps the
/// cells above the first.
pub broadcast proof fn keeping_on(a: Picture, b: Picture, c: Picture, y: int, z: int)
    requires
        #[trigger] keeps_above(a, b, y),
        #[trigger] keeps_above(b, c, z),
        y <= z,
    ensures
        keeps_above(a, c, y),
{
    reveal(keeps_above);
    let w = a.limits.width as int;
    assert(y * w <= z * w) by (nonlinear_arith)
        requires
            y <= z,
            w >= 0,
    ;
}

/// A picture keeps its own cells.
pub proof fn keeping_itself(p: Picture, y: int)
    ensures
        keeps_above(p, p, y),
{
    reveal(keeps_above);
}

proof fn tinting_keeps_above(p: Picture, y: int, rgb: Rgb)
    requires
        y >= 0,
    ensures
        keeps_above(p, tinted(p, y, rgb), y),
{
    reveal(keeps_above);
    let w = p.limits.width as int;
    assert forall|i: int| 0 <= i < p.cells.len() && i < y * w implies #[trigger] tinted(
        p,
        y,
        rgb,
    ).cells[i] == p.cells[i] by {
        if w == 0 {
            assert(y * w == 0) by (nonlinear_arith)
                requires
                    w == 0,
            ;
        } else {
            in_row(i, w, y);
        }
    }
}

proof fn in_row(i: int, w: int, y: int)
    requires
        i >= 0,
        w > 0,
        y >= 0,
    ensures
        i / w == y <==> y * w <= i < y * w + w,
{
    vstd::arithmetic::div_mod::lemma_fundamental_div_mod(i, w);
    vstd::arithmetic::div_mod::lemma_mod_bound(i, w);
    let q = i / w;
    assert(w * q == q * w) by (nonlinear_arith);
    if q < y {
        assert((q + 1) * w <= y * w) by (nonlinear_arith)
            requires
                q + 1 <= y,
                w > 0,
        ;
        assert((q + 1) * w == q * w + w) by (nonlinear_arith);
    }
    if q > y {
        assert((y + 1) * w <= q * w) by (nonlinear_arith)
            requires
                y + 1 <= q,
                w > 0,
        ;
        assert((y + 1) * w == y * w + w) by (nonlinear_arith);
    }
}

proof fn row_below(i: int, w: int, h: int, y: int)
    requires
        0 <= i < w * h,
        w >= 0,
        0 <= h <= y,
    ensures
        i / w != y,
{
    if w == 0 {
        assert(w * h == 0) by (nonlinear_arith)
            requires
                w == 0,
        ;
    } else {
        in_row(i, w, y);
        assert(w * h <= y * w) by (nonlinear_arith)
            requires
                h <= y,
                w > 0,
        ;
    }
}

/// The bar over a selected row spans it from edge to edge and touches no other:
/// every cell of the row has the background, and keeps its text, and every other
/// cell stays as it was.
pub proof fn the_bar_spans_its_row(p: Picture, y: int, rgb: Rgb, x: int, row: int)
    requires
        p.wf(),
        0 <= x < p.limits.width,
        0 <= row < p.limits.height,
    ensures
        tinted(p, y, rgb).at(x, row) == if row == y {
            with_background(p.at(x, row), rgb)
        } else {
            p.at(x, row)
        },
        tinted(p, y, rgb).at(x, row).text == p.at(x, row).text,
{
    let w = p.limits.width as int;
    let h = p.limits.height as int;
    let i = row * w + x;
    assert(0 <= i < w * h) by (nonlinear_arith)
        requires
            0 <= x < w,
            0 <= row < h,
            i == row * w + x,
    ;
    in_row(i, w, row);
}

/// Cut `s` to at most `max` columns, marking the cut with an ellipsis, or with
/// three dots in ASCII.
pub fn truncate(s: &str, max: usize, ascii: bool) -> (r: String)
    ensures
        r@ == ellipsized(s@, max as nat, ascii),
{
    if ascii {
        cut(s, max, "...")
    } else {
        cut(s, max, "\u{22ef}")
    }
}

/// What is left of a text that is cut to so many columns with an ellipsis.
pub open spec fn ellipsized(s: Seq<char>, max: nat, ascii: bool) -> Seq<char> {
    if ascii {
        shortened(s, max, "..."@)
    } else {
        shortened(s, max, "\u{22ef}"@)
    }
}

} // verus!
