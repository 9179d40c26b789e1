//! What fits on the screen: how high each part of the dashboard is, and what is
//! left out, least important first, until the rest fits.

use crate::canvas::Profile;
use crate::cli::Pane;
use crate::order::rows_view;
use crate::prs::{unqueued, PrRow};
use crate::queue::{visible, QueueRow, VisibleRows};
use crate::render::{help_height, MIN_WIDTH};
use crate::sections::{Sections, SectionsView};
use crate::text::{dec, decimal};
use crate::ui::Ui;
use vstd::prelude::*;

verus! {

/// What is shown of each section.
#[derive(Clone, Copy, Debug, PartialEq, Eq)]
pub struct Visibility {
    pub prs: bool,
    /// Which rows of the queue, if it is shown.
    pub queue: Option<VisibleRows>,
    /// How many merged rows, if they are shown.
    pub merged: Option<usize>,
    pub shipments: bool,
    pub reviews: bool,
    pub reviewed_merged: bool,
}

/// Everything that there is.
pub open spec fn all_visible(s: SectionsView) -> Visibility {
    Visibility {
        prs: s.prs is Some,
        queue: match s.queue {
            Some(_) => Some(VisibleRows::All),
            None => None,
        },
        merged: match s.merged {
            Some(rows) => Some(rows.len() as usize),
            None => None,
        },
        shipments: s.commits is Some,
        reviews: s.reviews is Some,
        reviewed_merged: s.reviewed_merged is Some,
    }
}

/// Nothing at all.
pub open spec fn none_visible() -> Visibility {
    Visibility {
        prs: false,
        queue: None,
        merged: None,
        shipments: false,
        reviews: false,
        reviewed_merged: false,
    }
}

impl Visibility {
    /// Everything that there is.
    pub fn all(sections: &Sections) -> (r: Visibility)
        ensures
            r == all_visible(sections@),
            r.merged matches Some(n) ==> sections@.merged matches Some(rows) && n == rows.len(),
    {
        Visibility {
            prs: sections.prs.is_some(),
            queue: if sections.queue.is_some() {
                Some(VisibleRows::All)
            } else {
                None
            },
            merged: match &sections.merged {
                Some(rows) => Some(rows.len()),
                None => None,
            },
            shipments: sections.commits.is_some(),
            reviews: sections.reviews.is_some(),
            reviewed_merged: sections.reviewed_merged.is_some(),
        }
    }

    /// Nothing at all.
    pub fn none() -> (r: Visibility)
        ensures
            r == none_visible(),
    {
        Visibility {
            prs: false,
            queue: None,
            merged: None,
            shipments: false,
            reviews: false,
            reviewed_merged: false,
        }
    }

    fn same(&self, other: &Visibility) -> (r: bool)
        ensures
            r == (*self == *other),
    {
        self.prs == other.prs && self.queue == other.queue && self.merged == other.merged
            && self.shipments == other.shipments && self.reviews == other.reviews
            && self.reviewed_merged == other.reviewed_merged
    }
}

/// What the layout comes to.
#[derive(Clone, Copy, Debug, PartialEq, Eq)]
pub struct ResponsiveLayout {
    pub visible: Visibility,
    pub show_help: bool,
    /// Whether something was left out.
    pub constrained: bool,
    /// Whether even the least does not fit.
    pub too_small: bool,
    pub required_height: u16,
}

// ---------------------------------------------------------------------------
// Heights
// ---------------------------------------------------------------------------

/// The height of a section that is shown whole: a header, a table header or a
/// placeholder, the rows, and a blank row.
pub open spec fn section_h(rows: Option<nat>, shown: bool) -> nat {
    match rows {
        Some(n) => if shown {
            n + 3
        } else {
            0
        },
        None => 0,
    }
}

/// The height of a section of which a number of rows is shown: with a row that
/// counts the hidden ones, which is all there is when none is shown.
pub open spec fn limited_h(total: nat, shown: Option<nat>) -> nat {
    match shown {
        Some(n) => if n == 0 {
            3
        } else if n < total {
            n + 4
        } else {
            n + 3
        },
        None => 0,
    }
}

/// The open pull requests that are listed: those in the queue are left to the
/// queue section where that is shown.
pub open spec fn listed(s: SectionsView, v: Visibility) -> Seq<crate::prs::PrRowView> {
    match s.prs {
        Some(rows) => if v.queue is Some {
            unqueued(rows)
        } else {
            rows
        },
        None => Seq::empty(),
    }
}

/// The queue rows that are shown.
pub open spec fn queue_shown(s: SectionsView, v: Visibility) -> Option<nat> {
    match (s.queue, v.queue) {
        (Some(rows), Some(mode)) => Some(visible(rows, mode).len()),
        _ => None,
    }
}

/// The counts of the shipments, if they are shown.
pub open spec fn commits_shown(s: SectionsView, v: Visibility) -> Option<
    crate::commits::StatsView,
> {
    if v.shipments {
        s.commits
    } else {
        None
    }
}

/// The height of the shipments: with counts a header, the upcoming version, the
/// releases and a blank row; a line and a blank row without.
pub open spec fn shipments_h(s: SectionsView, v: Visibility) -> nat {
    match commits_shown(s, v) {
        Some(stats) => if stats.available {
            stats.releases.len() + 3
        } else {
            2
        },
        None => 0,
    }
}

/// The height of the sections of a view, and of the tab strip above them.
pub open spec fn body_h(s: SectionsView, view: Pane, v: Visibility, tabs: bool) -> nat {
    let top: nat = if tabs {
        2
    } else {
        0
    };
    top + match view {
        Pane::Mine => {
            let prs: nat = if v.prs {
                listed(s, v).len() + 3
            } else {
                0
            };
            let queue: nat = match s.queue {
                Some(rows) => limited_h(rows.len(), queue_shown(s, v)),
                None => 0,
            };
            let merged: nat = match s.merged {
                Some(rows) => limited_h(
                    rows.len(),
                    match v.merged {
                        Some(n) => Some(n as nat),
                        None => None,
                    },
                ),
                None => 0,
            };
            prs + queue + merged + shipments_h(s, v)
        },
        Pane::Reviews => {
            section_h(
                match s.reviews {
                    Some(rows) => Some(rows.len()),
                    None => None,
                },
                v.reviews,
            ) + section_h(
                match s.reviewed_merged {
                    Some(rows) => Some(rows.len()),
                    None => None,
                },
                v.reviewed_merged,
            )
        },
    }
}

/// Whether the search prompt is shown.
pub open spec fn prompts(ui: Ui) -> bool {
    ui.search@.len() > 0 || ui.searching
}

/// How many blocks there are at the bottom.
pub open spec fn blocks(ui: Ui, status: Seq<char>, footer: bool, show_help: bool) -> nat {
    (if show_help {
        1nat
    } else {
        0
    }) + (if prompts(ui) {
        1nat
    } else {
        0
    }) + (if status.len() > 0 {
        1nat
    } else {
        0
    }) + (if footer {
        1nat
    } else {
        0
    })
}

/// The height of the bottom: the legend, the search prompt, the status line and
/// the footer, with a blank row between each two.
pub open spec fn bottom_h(ui: Ui, status: Seq<char>, footer: bool, show_help: bool) -> nat {
    let n = blocks(ui, status, footer, show_help);
    n + (if show_help {
        14nat
    } else {
        0
    }) + if n == 0 {
        0
    } else {
        (n - 1) as nat
    }
}

/// A number as far as the machine can count.
pub open spec fn cap(n: nat) -> nat {
    if n > usize::MAX {
        usize::MAX as nat
    } else {
        n
    }
}

fn plus(a: usize, b: usize) -> (r: usize)
    ensures
        r == cap((a + b) as nat),
{
    if a > usize::MAX - b {
        usize::MAX
    } else {
        a + b
    }
}

/// The height of a section that is shown whole.
pub fn section_height(rows: Option<usize>, shown: bool) -> (r: usize)
    ensures
        r == cap(
            section_h(
                match rows {
                    Some(n) => Some(n as nat),
                    None => None,
                },
                shown,
            ),
        ),
{
    match rows {
        Some(n) => if shown {
            plus(n, 3)
        } else {
            0
        },
        None => 0,
    }
}

/// The height of a section of which `shown` of `total` rows are shown.
pub fn limited_section_height(total: usize, shown: Option<usize>) -> (r: usize)
    ensures
        r == cap(
            limited_h(
                total as nat,
                match shown {
                    Some(n) => Some(n as nat),
                    None => None,
                },
            ),
        ),
{
    match shown {
        Some(n) => if n == 0 {
            3
        } else if n < total {
            plus(n, 4)
        } else {
            plus(n, 3)
        },
        None => 0,
    }
}

fn unqueued_count(rows: &Vec<PrRow>) -> (r: usize)
    ensures
        r == unqueued(rows_view(rows@)).len(),
{
    let ghost all = rows_view(rows@);
    let mut n: usize = 0;
    let mut i: usize = 0;
    proof {
        assert(all.take(0) =~= Seq::empty());
    }
    while i < rows.len()
        invariant
            i <= rows@.len(),
            n <= i,
            all == rows_view(rows@),
            n == unqueued(all.take(i as int)).len(),
        decreases rows@.len() - i,
    {
        proof {
            assert(all.take(i + 1).drop_last() =~= all.take(i as int));
        }
        if rows[i].queue.is_none() {
            n += 1;
        }
        i += 1;
    }
    proof {
        assert(all.take(i as int) =~= all);
    }
    n
}

/// The height of the sections of a view, and of the tab strip above them.
pub fn body_height(sections: &Sections, view: Pane, visible: Visibility, tabs: bool) -> (r: usize)
    ensures
        r == cap(body_h(sections@, view, visible, tabs)),
{
    let top: usize = if tabs {
        2
    } else {
        0
    };
    match view {
        Pane::Mine => {
            let prs: usize = if visible.prs {
                let n: usize = match &sections.prs {
                    Some(rows) => if visible.queue.is_some() {
                        unqueued_count(rows)
                    } else {
                        rows.len()
                    },
                    None => 0,
                };
                plus(n, 3)
            } else {
                0
            };
            let queue: usize = match &sections.queue {
                Some(rows) => {
                    let shown = match visible.queue {
                        Some(mode) => Some(mode.count(rows.as_slice())),
                        None => None,
                    };
                    limited_section_height(rows.len(), shown)
                },
                None => 0,
            };
            let merged: usize = match &sections.merged {
                Some(rows) => limited_section_height(rows.len(), visible.merged),
                None => 0,
            };
            let shipments: usize = match &sections.commits {
                Some(stats) => if !visible.shipments {
                    0
                } else if stats.available {
                    plus(stats.releases.len(), 3)
                } else {
                    2
                },
                None => 0,
            };
            plus(plus(plus(plus(top, prs), queue), merged), shipments)
        },
        Pane::Reviews => {
            let reviews: usize = section_height(
                match &sections.reviews {
                    Some(rows) => Some(rows.len()),
                    None => None,
                },
                visible.reviews,
            );
            let merged: usize = section_height(
                match &sections.reviewed_merged {
                    Some(rows) => Some(rows.len()),
                    None => None,
                },
                visible.reviewed_merged,
            );
            plus(plus(top, reviews), merged)
        },
    }
}

fn is_empty(s: &str) -> (r: bool)
    ensures
        r == (s@.len() == 0),
{
    proof {
        reveal_strlit("");
        assert(s@.len() == 0 ==> s@ =~= ""@);
    }
    crate::text::same(s, "")
}

/// The height of the bottom.
pub fn bottom_height(ui: &Ui, status: &str, footer: bool, show_help: bool) -> (r: usize)
    ensures
        r == bottom_h(*ui, status@, footer, show_help),
        r <= 21,
{
    let mut height: usize = 0;
    let mut n: usize = 0;
    if show_help {
        height += help_height();
        n += 1;
    }
    if !is_empty(ui.search.as_str()) || ui.searching {
        height += 1;
        n += 1;
    }
    if !is_empty(status) {
        height += 1;
        n += 1;
    }
    if footer {
        height += 1;
        n += 1;
    }
    if n > 0 {
        height + (n - 1)
    } else {
        height
    }
}

// ---------------------------------------------------------------------------
// Fitting
// ---------------------------------------------------------------------------

/// What the layout is for: the size of the screen, and what is to be shown.
pub struct Frame {
    pub sections: SectionsView,
    pub view: Pane,
    pub tabs: bool,
    /// The height of the bottom with the legend, and without it.
    pub bottom: nat,
    pub bottom_without_help: nat,
    pub rows: nat,
}

impl Frame {
    /// The height that a choice takes.
    #[verifier::opaque]
    pub open spec fn need(self, v: Visibility, help: bool) -> nat {
        body_h(self.sections, self.view, v, self.tabs) + if help {
            self.bottom
        } else {
            self.bottom_without_help
        }
    }

    /// Whether a choice fits.
    pub open spec fn fits(self, v: Visibility, help: bool) -> bool {
        self.need(v, help) <= self.rows
    }

    /// The most merged rows, `most` at most, with which the rest fits without
    /// the legend; `None` when not even one does.
    pub open spec fn merged_that_fit(self, v: Visibility, most: nat) -> Option<usize>
        decreases most,
    {
        if most == 0 {
            None
        } else if self.fits(Visibility { merged: Some(most as usize), ..v }, false) {
            Some(most as usize)
        } else {
            self.merged_that_fit(v, (most - 1) as nat)
        }
    }

    /// The first of the narrower choices of queue rows, if it leaves out rows at
    /// all, with which the rest fits without the legend.
    pub open spec fn queue_that_fits(self, v: Visibility) -> Option<VisibleRows> {
        let rows = self.sections.queue->0;
        let few = visible(rows, VisibleRows::BuildingAndMine).len();
        let fewer = visible(rows, VisibleRows::Building).len();
        if few < rows.len() && self.fits(
            Visibility { queue: Some(VisibleRows::BuildingAndMine), ..v },
            false,
        ) {
            Some(VisibleRows::BuildingAndMine)
        } else if fewer < few && self.fits(
            Visibility { queue: Some(VisibleRows::Building), ..v },
            false,
        ) {
            Some(VisibleRows::Building)
        } else {
            None
        }
    }

    /// What is shown of my sections when everything does not fit, the legend
    /// already left out: the shipments go first, unless there is nothing else,
    /// then merged rows from the oldest on, then queue rows, and then the queue.
    pub open spec fn mine_choice(self) -> Visibility {
        let all = all_visible(self.sections);
        let a = if !all.prs && all.queue is None && all.merged is None {
            all
        } else {
            Visibility { shipments: false, ..all }
        };
        let b = if self.fits(a, false) || a.merged is None {
            a
        } else {
            let shown = a.merged->0;
            Visibility {
                merged: self.merged_that_fit(
                    a,
                    if shown == 0 {
                        0
                    } else {
                        (shown - 1) as nat
                    },
                ),
                ..a
            }
        };
        if self.fits(b, false) || b.queue is None {
            b
        } else {
            Visibility { queue: self.queue_that_fits(b), ..b }
        }
    }

    /// What is shown: everything if it fits, with the legend or without it, or
    /// else the choice for the view. The open reviews are not left out.
    pub open spec fn choice(self, help: bool) -> Visibility {
        let all = all_visible(self.sections);
        if self.fits(all, help) || self.fits(all, false) {
            all
        } else {
            match self.view {
                Pane::Mine => self.mine_choice(),
                Pane::Reviews => if all.reviews {
                    Visibility { reviewed_merged: false, ..all }
                } else {
                    all
                },
            }
        }
    }

    /// Whether the legend is shown: if it is wanted, and everything fits with it.
    pub open spec fn helps(self, help: bool) -> bool {
        help && self.fits(all_visible(self.sections), true)
    }

    /// The height that is asked for, as far as a screen can be high.
    pub open spec fn asks(self, help: bool) -> nat {
        let n = self.need(self.choice(help), self.helps(help));
        if n > 65535 {
            65535
        } else {
            n
        }
    }
}

/// The frame of a layout.
pub open spec fn frame_of(
    rows: u16,
    sections: SectionsView,
    ui: Ui,
    status: Seq<char>,
    footer: bool,
    tabs: bool,
) -> Frame {
    Frame {
        sections,
        view: ui.view,
        tabs,
        bottom: bottom_h(ui, status, footer, true),
        bottom_without_help: bottom_h(ui, status, footer, false),
        rows: rows as nat,
    }
}

/// The layout for a screen of a known size.
pub open spec fn layout_of(width: u16, f: Frame, help: bool) -> ResponsiveLayout {
    let v = f.choice(help);
    let too_small = width < MIN_WIDTH || f.asks(help) > f.rows;
    ResponsiveLayout {
        visible: if too_small {
            none_visible()
        } else {
            v
        },
        show_help: f.helps(help),
        constrained: f.helps(help) != help || v != all_visible(f.sections),
        too_small,
        required_height: f.asks(help) as u16,
    }
}

fn needed(
    rows: u16,
    sections: &Sections,
    ui: &Ui,
    status: &str,
    footer: bool,
    tabs: bool,
    visible: Visibility,
    help: bool,
) -> (r: usize)
    ensures
        r == cap(frame_of(rows, sections@, *ui, status@, footer, tabs).need(visible, help)),
{
    reveal(Frame::need);
    let body = body_height(sections, ui.view, visible, tabs);
    let bottom = bottom_height(ui, status, footer, help);
    plus(body, bottom)
}

fn fits(
    rows: u16,
    sections: &Sections,
    ui: &Ui,
    status: &str,
    footer: bool,
    tabs: bool,
    visible: Visibility,
    help: bool,
) -> (r: bool)
    ensures
        r == frame_of(rows, sections@, *ui, status@, footer, tabs).fits(visible, help),
{
    needed(rows, sections, ui, status, footer, tabs, visible, help) <= rows as usize
}

fn fit_merged(
    rows: u16,
    sections: &Sections,
    ui: &Ui,
    status: &str,
    footer: bool,
    tabs: bool,
    visible: Visibility,
    shown: usize,
) -> (r: Option<usize>)
    ensures
        r == frame_of(rows, sections@, *ui, status@, footer, tabs).merged_that_fit(
            visible,
            if shown == 0 {
                0
            } else {
                (shown - 1) as nat
            },
        ),
{
    let ghost f = frame_of(rows, sections@, *ui, status@, footer, tabs);
    if shown == 0 {
        return None;
    }
    let mut keep: usize = shown - 1;
    while keep > 0
        invariant
            shown > 0,
            keep < shown,
            f == frame_of(rows, sections@, *ui, status@, footer, tabs),
            f.merged_that_fit(visible, keep as nat) == f.merged_that_fit(
                visible,
                (shown - 1) as nat,
            ),
        decreases keep,
    {
        let v = Visibility { merged: Some(keep), ..visible };
        if fits(rows, sections, ui, status, footer, tabs, v, false) {
            return Some(keep);
        }
        keep -= 1;
    }
    None
}

fn fit_queue(
    rows: u16,
    sections: &Sections,
    queue: &Vec<QueueRow>,
    ui: &Ui,
    status: &str,
    footer: bool,
    tabs: bool,
    visible: Visibility,
) -> (r: Option<VisibleRows>)
    requires
        sections@.queue == Some(rows_view(queue@)),
    ensures
        r == frame_of(rows, sections@, *ui, status@, footer, tabs).queue_that_fits(visible),
{
    let few = VisibleRows::BuildingAndMine.count(queue.as_slice());
    if few < queue.len() {
        let v = Visibility { queue: Some(VisibleRows::BuildingAndMine), ..visible };
        if fits(rows, sections, ui, status, footer, tabs, v, false) {
            return Some(VisibleRows::BuildingAndMine);
        }
    }
    let fewer = VisibleRows::Building.count(queue.as_slice());
    if fewer < few {
        let v = Visibility { queue: Some(VisibleRows::Building), ..visible };
        if fits(rows, sections, ui, status, footer, tabs, v, false) {
            return Some(VisibleRows::Building);
        }
    }
    None
}

fn fit_mine(
    rows: u16,
    sections: &Sections,
    ui: &Ui,
    status: &str,
    footer: bool,
    tabs: bool,
) -> (r: Visibility)
    ensures
        r == frame_of(rows, sections@, *ui, status@, footer, tabs).mine_choice(),
{
    let mut visible = Visibility::all(sections);
    if visible.prs || visible.queue.is_some() || visible.merged.is_some() {
        visible.shipments = false;
    }
    if !fits(rows, sections, ui, status, footer, tabs, visible, false) {
        if let Some(shown) = visible.merged {
            visible.merged = fit_merged(rows, sections, ui, status, footer, tabs, visible, shown);
        }
    }
    if !fits(rows, sections, ui, status, footer, tabs, visible, false) {
        if let Some(queue) = &sections.queue {
            visible.queue = fit_queue(rows, sections, queue, ui, status, footer, tabs, visible);
        }
    }
    visible
}

/// Lay the dashboard out for a screen. Where the screen is not of a known size
/// (`pinned` is false) everything is shown. Otherwise the legend is left out
/// first, and then the sections, the least important first, until the rest fits.
pub fn responsive_layout(
    width: u16,
    rows: u16,
    sections: &Sections,
    ui: &Ui,
    status: &str,
    footer: bool,
    tabs: bool,
    pinned: bool,
) -> (r: ResponsiveLayout)
    ensures
        !pinned ==> r == (ResponsiveLayout {
            visible: all_visible(sections@),
            show_help: ui.show_help,
            constrained: false,
            too_small: false,
            required_height: 0,
        }),
        pinned ==> r == layout_of(
            width,
            frame_of(rows, sections@, *ui, status@, footer, tabs),
            ui.show_help,
        ),
{
    let all = Visibility::all(sections);
    if !pinned {
        return ResponsiveLayout {
            visible: all,
            show_help: ui.show_help,
            constrained: false,
            too_small: false,
            required_height: 0,
        };
    }
    let ghost f = frame_of(rows, sections@, *ui, status@, footer, tabs);
    let mut visible = all;
    let mut show_help = ui.show_help;
    if !fits(rows, sections, ui, status, footer, tabs, visible, show_help) {
        show_help = false;
    }
    if !fits(rows, sections, ui, status, footer, tabs, visible, show_help) {
        match ui.view {
            Pane::Mine => {
                visible = fit_mine(rows, sections, ui, status, footer, tabs);
            },
            Pane::Reviews => {
                if all.reviews {
                    visible.reviewed_merged = false;
                }
            },
        }
    }
    proof {
        assert(visible == f.choice(ui.show_help));
        assert(show_help == f.helps(ui.show_help));
    }
    let asked = needed(rows, sections, ui, status, footer, tabs, visible, show_help);
    let required_height: u16 = if asked > 65535 {
        65535
    } else {
        asked as u16
    };
    let too_small = width < MIN_WIDTH || required_height > rows;
    ResponsiveLayout {
        visible: if too_small {
            Visibility::none()
        } else {
            visible
        },
        show_help,
        constrained: show_help != ui.show_help || !visible.same(&all),
        too_small,
        required_height,
    }
}


/// A dashboard that is not too small for its screen fits on it. (On a screen of
/// the greatest height that can be asked for, one that is still higher cannot be
/// told from one that fits.)
pub proof fn what_is_shown_fits(width: u16, f: Frame, help: bool)
    requires
        f.rows < 65535,
        !layout_of(width, f, help).too_small,
    ensures
        f.fits(layout_of(width, f, help).visible, layout_of(width, f, help).show_help),
{
}

/// The open pull requests and the open reviews are never left out: a screen that
/// cannot hold them is too small.
pub proof fn open_sections_are_protected(width: u16, f: Frame, help: bool)
    requires
        !layout_of(width, f, help).too_small,
    ensures
        layout_of(width, f, help).visible.prs == f.sections.prs is Some,
        layout_of(width, f, help).visible.reviews == f.sections.reviews is Some,
{
}

/// The legend goes before any section, and nothing goes that fits.
pub proof fn the_legend_goes_first(width: u16, f: Frame, help: bool)
    ensures
        f.choice(help) != all_visible(f.sections) ==> !layout_of(width, f, help).show_help,
        f.fits(all_visible(f.sections), help) ==> f.choice(help) == all_visible(f.sections)
            && !layout_of(width, f, help).constrained,
{
}

/// Sections go in order: merged rows stay until the shipments are gone, and queue
/// rows until the merged rows are.
pub proof fn sections_go_in_order(f: Frame, help: bool)
    requires
        f.view == Pane::Mine,
    ensures
        f.choice(help).merged != all_visible(f.sections).merged ==> !f.choice(help).shipments,
        f.choice(help).queue != all_visible(f.sections).queue ==> !f.choice(help).shipments
            && f.choice(help).merged is None,
{
    let all = all_visible(f.sections);
    let a = Visibility { shipments: false, ..all };
    if all.merged is Some {
        let n = all.merged->0;
        merged_kept_are_the_most(
            f,
            a,
            if n == 0 {
                0
            } else {
                (n - 1) as nat
            },
        );
    }
}

/// Of the merged rows as many are kept as fit: the choice fits, and one with
/// more rows does not.
pub proof fn merged_kept_are_the_most(f: Frame, v: Visibility, most: nat)
    requires
        most <= usize::MAX,
    ensures
        match f.merged_that_fit(v, most) {
            Some(k) => 1 <= k <= most && f.fits(Visibility { merged: Some(k), ..v }, false) && (
            forall|j: usize|
                k < j <= most ==> !#[trigger] f.fits(Visibility { merged: Some(j), ..v }, false)),
            None => forall|j: usize|
                1 <= j <= most ==> !#[trigger] f.fits(Visibility { merged: Some(j), ..v }, false),
        },
    decreases most,
{
    if most > 0 {
        merged_kept_are_the_most(f, v, (most - 1) as nat);
    }
}

/// A queued pull request is listed among the open ones exactly when the queue
/// section is not shown, so it is never lost and never shown twice.
pub proof fn a_queued_row_is_listed_where_the_queue_is_not(
    s: SectionsView,
    v: Visibility,
    r: crate::prs::PrRowView,
)
    requires
        s.prs matches Some(rows) && rows.contains(r),
        r.queue is Some,
    ensures
        listed(s, v).contains(r) <==> v.queue is None,
{
    crate::prs::only_unqueued_rows_stay(s.prs->0, r);
}

// ---------------------------------------------------------------------------
// Room to paint in
// ---------------------------------------------------------------------------

/// The rows of a section, with room for its header, its table header and a
/// blank row.
pub open spec fn room<A>(rows: Option<Seq<A>>) -> nat {
    match rows {
        Some(r) => r.len() + 3,
        None => 0,
    }
}

/// Room enough for the body of the dashboard, and for the bottom without the
/// legend.
pub open spec fn room_for(s: SectionsView, ui: Ui) -> nat {
    10 + match ui.view {
        Pane::Mine => room(s.prs) + room(s.queue) + room(s.merged) + match s.commits {
            Some(c) => c.releases.len() + 4,
            None => 0,
        },
        Pane::Reviews => room(s.reviews) + room(s.reviewed_merged),
    } + if ui.show_help {
        16nat
    } else {
        0
    }
}

/// A height as far as a surface can be high.
pub open spec fn surface_height(n: nat) -> nat {
    if n > 65535 {
        65535
    } else {
        n
    }
}

fn opt_room(n: Option<usize>, extra: usize) -> (r: usize)
    ensures
        r == match n {
            Some(k) => cap((k + extra) as nat),
            None => 0,
        },
{
    match n {
        Some(k) => plus(k, extra),
        None => 0,
    }
}

/// A height that the body of the dashboard stays within.
pub fn height_bound(s: &Sections, ui: &Ui) -> (r: u16)
    ensures
        r == surface_height(room_for(s@, *ui)),
{
    let mut n: usize = 10;
    match ui.view {
        Pane::Mine => {
            let prs = match &s.prs {
                Some(r) => Some(r.len()),
                None => None,
            };
            n = plus(n, opt_room(prs, 3));
            let queue = match &s.queue {
                Some(r) => Some(r.len()),
                None => None,
            };
            n = plus(n, opt_room(queue, 3));
            let merged = match &s.merged {
                Some(r) => Some(r.len()),
                None => None,
            };
            n = plus(n, opt_room(merged, 3));
            let commits = match &s.commits {
                Some(c) => Some(c.releases.len()),
                None => None,
            };
            n = plus(n, opt_room(commits, 4));
        },
        Pane::Reviews => {
            let reviews = match &s.reviews {
                Some(r) => Some(r.len()),
                None => None,
            };
            n = plus(n, opt_room(reviews, 3));
            let merged = match &s.reviewed_merged {
                Some(r) => Some(r.len()),
                None => None,
            };
            n = plus(n, opt_room(merged, 3));
        },
    }
    if ui.show_help {
        n = plus(n, help_height() + 1);
    }
    if n > 65535 {
        65535
    } else {
        n as u16
    }
}

/// A height that the bottom of the dashboard stays within.
pub fn bottom_bound(ui: &Ui) -> (r: u16)
    ensures
        r == 6 + if ui.show_help {
            16int
        } else {
            0
        },
{
    if ui.show_help {
        (6 + help_height() + 1) as u16
    } else {
        6
    }
}

/// The bounds are bounds: the body takes no more than the room for it, whatever
/// is shown of the sections, and the bottom no more than its own.
pub proof fn there_is_room_for_the_dashboard(
    s: SectionsView,
    ui: Ui,
    v: Visibility,
    tabs: bool,
    status: Seq<char>,
    footer: bool,
)
    requires
        v.prs ==> s.prs is Some,
        v.merged matches Some(n) ==> s.merged matches Some(rows) && n <= rows.len(),
    ensures
        body_h(s, ui.view, v, tabs) <= room_for(s, ui),
        bottom_h(ui, status, footer, ui.show_help) <= 6 + if ui.show_help {
            16int
        } else {
            0
        },
{
    if s.prs is Some {
        unqueued_are_fewer(s.prs->0);
    }
    if s.queue is Some && v.queue is Some {
        visible_are_fewer(s.queue->0, v.queue->0);
    }
}

proof fn unqueued_are_fewer(rows: Seq<crate::prs::PrRowView>)
    ensures
        unqueued(rows).len() <= rows.len(),
    decreases rows.len(),
{
    if rows.len() > 0 {
        unqueued_are_fewer(rows.drop_last());
    }
}

/// No more rows are shown of the queue than it has.
pub proof fn visible_are_fewer(rows: Seq<crate::queue::QueueRowView>, mode: VisibleRows)
    ensures
        visible(rows, mode).len() <= rows.len(),
    decreases rows.len(),
{
    if rows.len() > 0 {
        visible_are_fewer(rows.drop_last(), mode);
    }
}

/// Whether to use ASCII: when asked for, and where no styling survives.
pub fn ascii_mode(explicit: bool, profile: Profile) -> (r: bool)
    ensures
        r == (explicit || profile == Profile::Disabled),
{
    explicit || profile == Profile::Disabled
}

/// The notice for a screen that is too small.
pub fn too_small_message(required_width: u16, required_height: u16) -> (r: String)
    ensures
        r@ == small_notice(required_width as nat, required_height as nat),
{
    let mut s = "Terminal too small \u{2014} need ".to_string();
    let w = decimal(required_width as u128);
    s.append(w.as_str());
    s.append("\u{d7}");
    let h = decimal(required_height as u128);
    s.append(h.as_str());
    s.append(".");
    s
}

/// The notice for a screen that is too small.
pub open spec fn small_notice(width: nat, height: nat) -> Seq<char> {
    "Terminal too small \u{2014} need "@ + dec(width) + "\u{d7}"@ + dec(height) + "."@
}

// ---------------------------------------------------------------------------
// Nothing is left out that fits
// ---------------------------------------------------------------------------

/// Whether a screen holds a choice of what is shown, above a bottom without the
/// legend.
#[verifier::opaque]
pub open spec fn holds(
    rows: u16,
    s: SectionsView,
    ui: Ui,
    status: Seq<char>,
    footer: bool,
    tabs: bool,
    v: Visibility,
) -> bool {
    body_h(s, ui.view, v, tabs) + bottom_h(ui, status, footer, false) <= rows
}

proof fn the_frame_holds(
    rows: u16,
    s: SectionsView,
    ui: Ui,
    status: Seq<char>,
    footer: bool,
    tabs: bool,
    v: Visibility,
)
    ensures
        frame_of(rows, s, ui, status, footer, tabs).fits(v, false) <==> holds(
            rows,
            s,
            ui,
            status,
            footer,
            tabs,
            v,
        ),
        frame_of(rows, s, ui, status, footer, tabs).fits(v, true) <==> body_h(
            s,
            ui.view,
            v,
            tabs,
        ) + bottom_h(ui, status, footer, true) <= rows,
        frame_of(rows, s, ui, status, footer, tabs).fits(v, true) ==> frame_of(
            rows,
            s,
            ui,
            status,
            footer,
            tabs,
        ).fits(v, false),
{
    reveal(Frame::need);
    reveal(holds);
}

proof fn all_that_fits_is_held(
    rows: u16,
    s: SectionsView,
    ui: Ui,
    status: Seq<char>,
    footer: bool,
    tabs: bool,
)
    ensures
        forall|v: Visibility| #[trigger]
            holds(rows, s, ui, status, footer, tabs, v) <==> frame_of(
                rows,
                s,
                ui,
                status,
                footer,
                tabs,
            ).fits(v, false),
{
    assert forall|v: Visibility| #[trigger]
        holds(rows, s, ui, status, footer, tabs, v) <==> frame_of(
            rows,
            s,
            ui,
            status,
            footer,
            tabs,
        ).fits(v, false) by {
        the_frame_holds(rows, s, ui, status, footer, tabs, v);
    }
}

proof fn as_many_queue_rows_are_as_high(f: Frame, v: Visibility, m: VisibleRows, n: VisibleRows)
    requires
        f.view == Pane::Mine,
        f.sections.queue matches Some(q) && visible(q, m).len() == visible(q, n).len(),
    ensures
        f.fits(with_queue(v, m), false) == f.fits(with_queue(v, n), false),
{
    reveal(Frame::need);
}

/// What is left of my sections when everything does not fit, by what fits.
proof fn mine_choice_is_the_most(f: Frame)
    requires
        f.view == Pane::Mine,
        f.sections.merged matches Some(m) ==> m.len() <= usize::MAX,
        !f.fits(all_visible(f.sections), false),
    ensures
        ({
            let s = f.sections;
            let v = f.mine_choice();
            let all = all_visible(s);
            let a = Visibility { shipments: false, ..all };
            let b = Visibility { merged: None, ..a };
            let others = s.prs is Some || s.queue is Some || s.merged is Some;
            &&& v.prs == all.prs
            &&& v.reviews == all.reviews && v.reviewed_merged == all.reviewed_merged
            &&& others ==> !v.shipments
            &&& !others ==> v == all
            &&& others && f.fits(a, false) ==> v == a
            &&& v.merged != all.merged ==> !f.fits(a, false)
            &&& forall|n: usize|
                (s.merged matches Some(m) && 1 <= n <= m.len()) && (v.merged matches Some(k)
                    ==> k < n) ==> !f.fits(#[trigger] with_merged(a, n), false)
            &&& v.merged matches Some(k) ==> (s.merged matches Some(m) && k <= m.len())
            &&& v.queue != all.queue ==> v.merged is None && !f.fits(b, false)
            &&& v.queue == Some(VisibleRows::Building) ==> !f.fits(
                with_queue(b, VisibleRows::BuildingAndMine),
                false,
            )
            &&& s.queue is Some && v.queue is None ==> forall|mode: VisibleRows|
                !f.fits(#[trigger] with_queue(b, mode), false)
            &&& s.queue is None ==> v.queue is None
            &&& others && !f.fits(v, false) ==> v == (Visibility { queue: None, ..b })
        }),
{
    let s = f.sections;
    let all = all_visible(s);
    let a = Visibility { shipments: false, ..all };
    let b = Visibility { merged: None, ..a };
    if s.merged is Some {
        let shown = all.merged->0;
        let most: nat = if shown == 0 {
            0
        } else {
            (shown - 1) as nat
        };
        merged_kept_are_the_most(f, a, most);
        assert(with_merged(a, shown) == a);
    } else {
        assert(b == a);
    }
    if s.queue is Some {
        let q = s.queue->0;
        crate::queue::a_narrower_choice_shows_no_more(q);
        assert(with_queue(b, VisibleRows::All) == b);
        if visible(q, VisibleRows::BuildingAndMine).len() == q.len() {
            as_many_queue_rows_are_as_high(f, b, VisibleRows::BuildingAndMine, VisibleRows::All);
        }
        if visible(q, VisibleRows::Building).len() == visible(
            q,
            VisibleRows::BuildingAndMine,
        ).len() {
            as_many_queue_rows_are_as_high(
                f,
                b,
                VisibleRows::BuildingAndMine,
                VisibleRows::Building,
            );
        }
    }
}

/// Everything is shown that the screen holds. Only when it does not, even without
/// the legend, is anything left out; and the legend is shown exactly if it is
/// wanted and there is room for it below everything.
pub proof fn everything_is_shown_that_fits(
    width: u16,
    rows: u16,
    s: SectionsView,
    ui: Ui,
    status: Seq<char>,
    footer: bool,
    tabs: bool,
)
    requires
        width >= MIN_WIDTH,
    ensures
        ({
            let r = layout_of(
                width,
                frame_of(rows, s, ui, status, footer, tabs),
                ui.show_help,
            );
            let all = all_visible(s);
            let with_legend = body_h(s, ui.view, all, tabs) + bottom_h(ui, status, footer, true)
                <= rows;
            &&& r.show_help <==> ui.show_help && with_legend
            &&& holds(rows, s, ui, status, footer, tabs, all) ==> r.visible == all && !r.too_small
        }),
{
    let f = frame_of(rows, s, ui, status, footer, tabs);
    let all = all_visible(s);
    the_frame_holds(rows, s, ui, status, footer, tabs, all);
}

/// My sections go one at a time, and each only for want of room. Where everything
/// but the shipments fits, just the shipments go. Merged rows go only while one
/// more of them would not fit, queue rows only while all of them would not fit
/// with the merged section gone, and the queue only when not even what is building
/// would fit. The shipments stay where there is nothing else.
pub proof fn a_section_goes_only_for_want_of_room(
    width: u16,
    rows: u16,
    s: SectionsView,
    ui: Ui,
    status: Seq<char>,
    footer: bool,
    tabs: bool,
)
    requires
        ui.view == Pane::Mine,
        s.merged matches Some(m) ==> m.len() <= usize::MAX,
        !layout_of(width, frame_of(rows, s, ui, status, footer, tabs), ui.show_help).too_small,
        !holds(rows, s, ui, status, footer, tabs, all_visible(s)),
    ensures
        ({
            let v = layout_of(
                width,
                frame_of(rows, s, ui, status, footer, tabs),
                ui.show_help,
            ).visible;
            let all = all_visible(s);
            let a = Visibility { shipments: false, ..all };
            let b = Visibility { merged: None, ..a };
            let others = s.prs is Some || s.queue is Some || s.merged is Some;
            &&& v.prs == s.prs is Some
            &&& v.reviews == all.reviews && v.reviewed_merged == all.reviewed_merged
            &&& others ==> !v.shipments
            &&& !others ==> v == all
            &&& others && holds(rows, s, ui, status, footer, tabs, a) ==> v == a
            &&& v.merged != all.merged ==> !holds(rows, s, ui, status, footer, tabs, a)
            &&& forall|n: usize|
                (s.merged matches Some(m) && 1 <= n <= m.len()) && (v.merged matches Some(k)
                    ==> k < n) ==> !holds(
                    rows,
                    s,
                    ui,
                    status,
                    footer,
                    tabs,
                    #[trigger] with_merged(a, n),
                )
            &&& v.merged matches Some(k) ==> (s.merged matches Some(m) && k <= m.len())
            &&& v.queue != all.queue ==> v.merged is None && !holds(
                rows,
                s,
                ui,
                status,
                footer,
                tabs,
                b,
            )
            &&& v.queue == Some(VisibleRows::Building) ==> !holds(
                rows,
                s,
                ui,
                status,
                footer,
                tabs,
                with_queue(b, VisibleRows::BuildingAndMine),
            )
            &&& s.queue is Some && v.queue is None ==> forall|mode: VisibleRows|
                !holds(rows, s, ui, status, footer, tabs, #[trigger] with_queue(b, mode))
            &&& s.queue is None ==> v.queue is None
        }),
{
    let f = frame_of(rows, s, ui, status, footer, tabs);
    all_that_fits_is_held(rows, s, ui, status, footer, tabs);
    the_frame_holds(rows, s, ui, status, footer, tabs, all_visible(s));
    assert(f.choice(ui.show_help) == f.mine_choice());
    mine_choice_is_the_most(f);
}

/// A choice with a number of merged rows in it.
pub open spec fn with_merged(v: Visibility, n: usize) -> Visibility {
    Visibility { merged: Some(n), ..v }
}

/// A choice with some rows of the queue in it.
pub open spec fn with_queue(v: Visibility, mode: VisibleRows) -> Visibility {
    Visibility { queue: Some(mode), ..v }
}

/// A screen is too small only if it is too narrow, or cannot hold even the least:
/// of my sections the open pull requests alone, of the reviews the open ones. The
/// height asked for is then more than it has, and nothing of the sections is shown.
pub proof fn a_screen_too_small_cannot_hold_the_least(
    width: u16,
    rows: u16,
    s: SectionsView,
    ui: Ui,
    status: Seq<char>,
    footer: bool,
    tabs: bool,
)
    requires
        layout_of(width, frame_of(rows, s, ui, status, footer, tabs), ui.show_help).too_small,
        s.merged matches Some(m) ==> m.len() <= usize::MAX,
    ensures
        ({
            let r = layout_of(
                width,
                frame_of(rows, s, ui, status, footer, tabs),
                ui.show_help,
            );
            let all = all_visible(s);
            let least = match ui.view {
                Pane::Mine => if s.prs is Some || s.queue is Some || s.merged is Some {
                    Visibility { queue: None, merged: None, shipments: false, ..all }
                } else {
                    all
                },
                Pane::Reviews => if s.reviews is Some {
                    Visibility { reviewed_merged: false, ..all }
                } else {
                    all
                },
            };
            &&& r.visible == none_visible()
            &&& width >= MIN_WIDTH ==> r.required_height > rows && !holds(
                rows,
                s,
                ui,
                status,
                footer,
                tabs,
                least,
            )
        }),
{
    let f = frame_of(rows, s, ui, status, footer, tabs);
    all_that_fits_is_held(rows, s, ui, status, footer, tabs);
    the_frame_holds(rows, s, ui, status, footer, tabs, all_visible(s));
    if width >= MIN_WIDTH {
        let c = f.choice(ui.show_help);
        assert(!f.fits(c, false)) by {
            reveal(Frame::need);
        }
        assert(!f.fits(all_visible(s), false));
        if ui.view == Pane::Mine {
            mine_choice_is_the_most(f);
        }
    }
}

/// The reviews that I gave go only for want of room: where both sections fit both
/// are shown, and the open reviews are always shown.
pub proof fn the_given_reviews_go_only_for_want_of_room(
    width: u16,
    rows: u16,
    s: SectionsView,
    ui: Ui,
    status: Seq<char>,
    footer: bool,
    tabs: bool,
)
    requires
        ui.view == Pane::Reviews,
        !layout_of(width, frame_of(rows, s, ui, status, footer, tabs), ui.show_help).too_small,
        s.reviews is Some,
        s.reviewed_merged is Some,
    ensures
        ({
            let v = layout_of(
                width,
                frame_of(rows, s, ui, status, footer, tabs),
                ui.show_help,
            ).visible;
            &&& v.reviews
            &&& v.reviewed_merged <==> holds(rows, s, ui, status, footer, tabs, all_visible(s))
        }),
{
    let f = frame_of(rows, s, ui, status, footer, tabs);
    the_frame_holds(rows, s, ui, status, footer, tabs, all_visible(s));
}

/// What is shown is held by the screen, the tab strip and the bottom counted in,
/// with the legend where it is shown.
pub proof fn what_is_shown_is_held(
    width: u16,
    rows: u16,
    s: SectionsView,
    ui: Ui,
    status: Seq<char>,
    footer: bool,
    tabs: bool,
)
    requires
        rows < 65535,
        !layout_of(width, frame_of(rows, s, ui, status, footer, tabs), ui.show_help).too_small,
    ensures
        ({
            let r = layout_of(
                width,
                frame_of(rows, s, ui, status, footer, tabs),
                ui.show_help,
            );
            &&& body_h(s, ui.view, r.visible, tabs) + bottom_h(ui, status, footer, r.show_help)
                <= rows
            &&& r.required_height == body_h(s, ui.view, r.visible, tabs) + bottom_h(
                ui,
                status,
                footer,
                r.show_help,
            )
            &&& width >= MIN_WIDTH
            &&& r.constrained <==> r.visible != all_visible(s) || (ui.show_help && !r.show_help)
        }),
{
    reveal(Frame::need);
}

/// What laying out gives on a screen that holds everything but the shipments:
/// they go, and nothing else does.
pub proof fn just_the_shipments_go(
    width: u16,
    rows: u16,
    sections: &Sections,
    ui: &Ui,
    status: &str,
    footer: bool,
    tabs: bool,
    r: ResponsiveLayout,
)
    requires
        call_ensures(
            responsive_layout,
            (width, rows, sections, ui, status, footer, tabs, true),
            r,
        ),
        width >= MIN_WIDTH,
        rows < 65535,
        ui.view == Pane::Mine,
        sections@.prs is Some || sections@.queue is Some || sections@.merged is Some,
        sections@.merged matches Some(m) ==> m.len() <= usize::MAX,
        body_h(
            sections@,
            Pane::Mine,
            (Visibility { shipments: false, ..all_visible(sections@) }),
            tabs,
        ) + bottom_h(*ui, status@, footer, false) <= rows,
    ensures
        !r.too_small,
        r.visible == all_visible(sections@) || r.visible == (Visibility {
            shipments: false,
            ..all_visible(sections@)
        }),
        r.visible.merged == all_visible(sections@).merged,
        r.visible.queue == all_visible(sections@).queue,
{
    let s = sections@;
    let a = Visibility { shipments: false, ..all_visible(s) };
    let f = frame_of(rows, s, *ui, status@, footer, tabs);
    assert(holds(rows, s, *ui, status@, footer, tabs, a)) by {
        reveal(holds);
    }
    the_frame_holds(rows, s, *ui, status@, footer, tabs, a);
    the_frame_holds(rows, s, *ui, status@, footer, tabs, all_visible(s));
    if !f.fits(all_visible(s), false) {
        mine_choice_is_the_most(f);
    }
}

/// What laying out gives of the merged rows: one that is left out would not fit,
/// with everything but the shipments shown beside as many as are kept and it.
pub proof fn a_merged_row_goes_only_for_want_of_room(
    width: u16,
    rows: u16,
    sections: &Sections,
    ui: &Ui,
    status: &str,
    footer: bool,
    tabs: bool,
    r: ResponsiveLayout,
    n: usize,
)
    requires
        call_ensures(
            responsive_layout,
            (width, rows, sections, ui, status, footer, tabs, true),
            r,
        ),
        !r.too_small,
        ui.view == Pane::Mine,
        sections@.merged matches Some(m) && 1 <= n <= m.len() <= usize::MAX,
        r.visible.merged matches Some(k) ==> k < n,
    ensures
        body_h(
            sections@,
            Pane::Mine,
            (Visibility { shipments: false, merged: Some(n), ..all_visible(sections@) }),
            tabs,
        ) + bottom_h(*ui, status@, footer, false) > rows,
{
    let s = sections@;
    let f = frame_of(rows, s, *ui, status@, footer, tabs);
    let a = Visibility { shipments: false, ..all_visible(s) };
    the_frame_holds(rows, s, *ui, status@, footer, tabs, all_visible(s));
    assert(!f.fits(all_visible(s), false));
    mine_choice_is_the_most(f);
    let v = with_merged(a, n);
    the_frame_holds(rows, s, *ui, status@, footer, tabs, v);
    assert(!f.fits(v, false));
    reveal(holds);
}

} // verus!
