//! The watch: its state, what events do to it, and what a refresh comes to. It
//! decides; painting, opening pages and reading keys are done for it.

use crate::canvas::Limits;
use crate::changes::{
    newly, numbers, something, status_differs, statuses, Changes, Tracker, TrackerView,
};
use crate::cli::Pane;
use crate::dashboard::{
    inline_frame, look_of, pinned_frame, render_dashboard, Drawn, DrawnView, Look,
};
use crate::layout::{all_visible, frame_of, layout_of, responsive_layout, Visibility};
use crate::nav::{
    filter, filtered, find_url, list_at, moved, moved_to, position, section_at_visible,
    shown_links, shown_targets, targets_visible,
};
use crate::sections::{no_sections, Sections, SectionsView};
use crate::text::{dec, decimal, opt_view, views};
use crate::ui::{
    classify, classify_search, event_action, event_search, short, short_error, Action, Event,
    SearchAction, Ui, UiView,
};
use crate::timefmt::Timestamp;
use vstd::prelude::*;

verus! {

/// The state of the watch.
#[derive(Debug)]
pub struct Watch {
    pub ui: Ui,
    /// The last sections that could be fetched.
    pub last_good: Option<Sections>,
    /// What changes are told against.
    pub prev: Option<Tracker>,
    /// The line above the footer: an error, or a note that the next refresh
    /// clears.
    pub last_status: String,
    /// Whether the bell may ring. It does not on the first refresh.
    pub armed: bool,
    /// Whether the dashboard fills the screen.
    pub in_alt: bool,
}

/// What happens after an event.
#[derive(Clone, Copy, Debug, PartialEq, Eq, Structural)]
pub enum Flow {
    /// Keep waiting.
    Continue,
    /// Refresh now.
    Refresh,
    /// Leave.
    Quit,
}

/// What is to be done for an event.
#[derive(Debug, PartialEq, Eq)]
pub enum Effect {
    Nothing,
    /// Paint the frame again.
    Repaint,
    /// Suspend to the shell, and paint again on return.
    Suspend,
    /// Open a page.
    Open(String),
    /// Copy a text with so many links.
    Copy(String, usize),
    /// Bring the screen to a size, and paint again.
    Resize(u16, u16),
}

/// What is to be done, in text.
pub enum EffectView {
    Nothing,
    Repaint,
    Suspend,
    Open(Seq<char>),
    Copy(Seq<char>, nat),
    Resize(u16, u16),
}

impl View for Effect {
    type V = EffectView;

    open spec fn view(&self) -> EffectView {
        match *self {
            Effect::Nothing => EffectView::Nothing,
            Effect::Repaint => EffectView::Repaint,
            Effect::Suspend => EffectView::Suspend,
            Effect::Open(u) => EffectView::Open(u@),
            Effect::Copy(t, n) => EffectView::Copy(t@, n as nat),
            Effect::Resize(w, h) => EffectView::Resize(w, h),
        }
    }
}

/// The size of the screen.
#[derive(Clone, Copy, Debug, PartialEq, Eq)]
pub struct Size {
    pub width: u16,
    pub height: u16,
}

/// A size of at least one.
pub open spec fn at_least_one(n: u16) -> u16 {
    if n < 1 {
        1
    } else {
        n
    }
}

/// The sections that a search leaves; all of them without one.
pub open spec fn searched(good: SectionsView, query: Seq<char>) -> SectionsView {
    if query.len() == 0 {
        good
    } else {
        filtered(good, query)
    }
}

/// What is shown of sections on a screen of a size.
pub open spec fn shown_on(
    s: SectionsView,
    ui: Ui,
    status: Seq<char>,
    in_alt: bool,
    size: Size,
) -> Visibility {
    if in_alt {
        layout_of(
            at_least_one(size.width),
            frame_of(at_least_one(size.height), s, ui, status, true, true),
            ui.show_help,
        ).visible
    } else {
        all_visible(s)
    }
}

impl Watch {
    /// The sections that the search leaves.
    pub open spec fn shown(self) -> SectionsView {
        searched(self.last_good->0@, self.ui.search@)
    }

    /// What is shown of them.
    pub open spec fn visible(self, size: Size) -> Visibility {
        shown_on(self.shown(), self.ui, self.last_status@, self.in_alt, size)
    }

    /// The pages of the rows that can be selected, in order; none without data.
    pub open spec fn targets(self, size: Size) -> Seq<Seq<char>> {
        if self.last_good is Some {
            shown_targets(self.ui.view, self.shown(), self.ui.search@, self.visible(size))
        } else {
            Seq::empty()
        }
    }

    /// The page of the selected row.
    pub open spec fn url(self, size: Size) -> Option<Seq<char>> {
        match self.ui.selected {
            Some(i) => if i < self.targets(size).len() {
                Some(self.targets(size)[i as int])
            } else {
                None
            },
            None => None,
        }
    }

    /// The pages of the section that the cursor is in.
    pub open spec fn section(self, size: Size) -> Seq<Seq<char>> {
        if self.last_good is Some {
            list_at(
                shown_links(self.ui.view, self.shown(), self.ui.search@, self.visible(size)),
                match self.ui.selected {
                    Some(i) => i as int,
                    None => 0,
                },
                0,
            )
        } else {
            Seq::empty()
        }
    }

    /// The selection of a page.
    pub open spec fn selection_of(self, url: Option<Seq<char>>, size: Size) -> Option<usize> {
        match url {
            Some(u) => if self.targets(size).contains(u) {
                Some(position(self.targets(size), u) as usize)
            } else {
                None
            },
            None => None,
        }
    }

    /// Whether all but the interactive state is as in `other`.
    pub open spec fn same_but_ui(self, other: Watch) -> bool {
        &&& self.last_good == other.last_good
        &&& self.prev == other.prev
        &&& self.last_status == other.last_status
        &&& self.armed == other.armed
        &&& self.in_alt == other.in_alt
    }

    fn visible_sections(&self, sections: &Sections, size: Size) -> (r: Visibility)
        ensures
            r == shown_on(sections@, self.ui, self.last_status@, self.in_alt, size),
    {
        let w: u16 = if size.width < 1 {
            1
        } else {
            size.width
        };
        let h: u16 = if size.height < 1 {
            1
        } else {
            size.height
        };
        responsive_layout(
            w,
            h,
            sections,
            &self.ui,
            self.last_status.as_str(),
            true,
            true,
            self.in_alt,
        ).visible
    }

    fn is_searched(&self) -> (r: bool)
        ensures
            r == (self.ui.search@.len() > 0),
    {
        proof {
            reveal_strlit("");
            let s = self.ui.search@;
            assert(s.len() == 0 ==> s =~= ""@);
        }
        !crate::text::same(self.ui.search.as_str(), "")
    }

    /// The pages of the rows that can be selected, in order.
    pub fn target_list(&self, size: Size) -> (r: Vec<String>)
        ensures
            views(r@) == self.targets(size),
    {
        match &self.last_good {
            Some(good) => {
                let query = self.ui.search.as_str();
                if self.is_searched() {
                    let shown = filter(good, query);
                    let v = self.visible_sections(&shown, size);
                    targets_visible(self.ui.view, &shown, query, v)
                } else {
                    let v = self.visible_sections(good, size);
                    targets_visible(self.ui.view, good, query, v)
                }
            },
            None => {
                let r: Vec<String> = Vec::new();
                assert(views(r@) =~= Seq::<Seq<char>>::empty());
                r
            },
        }
    }

    /// How many rows can be selected.
    pub fn target_count(&self, size: Size) -> (r: usize)
        ensures
            r == self.targets(size).len(),
    {
        let list = self.target_list(size);
        assert(views(list@).len() == list@.len());
        list.len()
    }

    /// The page of the selected row.
    pub fn selected_url(&self, size: Size) -> (r: Option<String>)
        ensures
            opt_view(r) == self.url(size),
    {
        match self.ui.selected {
            Some(i) => {
                let list = self.target_list(size);
                assert(views(list@).len() == list@.len());
                if i < list.len() {
                    assert(views(list@)[i as int] == list@[i as int]@);
                    Some(list[i].clone())
                } else {
                    None
                }
            },
            None => None,
        }
    }

    /// Select the row with a page, if it is shown.
    pub fn restore_selection(&mut self, url: Option<&str>, size: Size)
        ensures
            final(self).ui@ == (UiView {
                selected: old(self).selection_of(crate::text::opt_str_view(url), size),
                ..old(self).ui@
            }),
            final(self).same_but_ui(*old(self)),
    {
        let selected = match url {
            Some(u) => {
                let list = self.target_list(size);
                find_url(&list, u)
            },
            None => None,
        };
        self.ui.selected = selected;
    }

    /// The links of the section that the cursor is in, as a list in Markdown.
    fn section_links(&self, size: Size) -> (r: Vec<String>)
        ensures
            views(r@) == self.section(size),
    {
        let index: usize = match self.ui.selected {
            Some(i) => i,
            None => 0,
        };
        match &self.last_good {
            Some(good) => {
                let query = self.ui.search.as_str();
                if self.is_searched() {
                    let shown = filter(good, query);
                    let v = self.visible_sections(&shown, size);
                    section_at_visible(self.ui.view, &shown, query, index, v)
                } else {
                    let v = self.visible_sections(good, size);
                    section_at_visible(self.ui.view, good, query, index, v)
                }
            },
            None => {
                let r: Vec<String> = Vec::new();
                assert(views(r@) =~= Seq::<Seq<char>>::empty());
                r
            },
        }
    }
}

/// Half of the window's rows, and one at least; ten when they are not known.
pub open spec fn half_of(rows: Option<u16>) -> int {
    match rows {
        Some(n) => if n as int / 2 < 1 {
            1
        } else {
            n as int / 2
        },
        None => 10,
    }
}

/// The step of a movement by half a page.
pub fn half_page(rows: Option<u16>) -> (r: usize)
    ensures
        r == half_of(rows),
{
    match rows {
        Some(n) => if n / 2 < 1 {
            1
        } else {
            (n / 2) as usize
        },
        None => 10,
    }
}

/// Links as a list in Markdown.
pub open spec fn markdown(urls: Seq<Seq<char>>) -> Seq<char>
    decreases urls.len(),
{
    if urls.len() == 0 {
        Seq::empty()
    } else if urls.len() == 1 {
        "- "@ + urls[0]
    } else {
        markdown(urls.drop_last()) + "\n"@ + "- "@ + urls.last()
    }
}

/// Write links as a list in Markdown.
pub fn markdown_list(urls: &Vec<String>) -> (r: String)
    ensures
        r@ == markdown(views(urls@)),
{
    let ghost all = views(urls@);
    let mut out = String::new();
    let mut i: usize = 0;
    proof {
        assert(all.take(0) =~= Seq::empty());
    }
    while i < urls.len()
        invariant
            i <= urls@.len(),
            all == views(urls@),
            out@ == markdown(all.take(i as int)),
        decreases urls@.len() - i,
    {
        proof {
            let t = all.take(i + 1);
            assert(t.drop_last() =~= all.take(i as int));
            assert(t.last() == urls@[i as int]@);
            if i == 0 {
                assert(t[0] == urls@[0]@);
                assert(Seq::<char>::empty() + "- "@ =~= "- "@);
            }
        }
        if i > 0 {
            out.append("\n");
        }
        out.append("- ");
        out.append(urls[i].as_str());
        i += 1;
    }
    proof {
        assert(all.take(i as int) =~= all);
    }
    out
}

/// What an action does while no prompt is open: the state after it, how to go
/// on, and what is to be done. `url` is the page of the selected row, `section`
/// the pages around it, `count` the number of rows that can be selected, and
/// `restored` the selection that a change of size leaves.
pub open spec fn step(
    ui: UiView,
    action: Action,
    url: Option<Seq<char>>,
    section: Seq<Seq<char>>,
    count: int,
    half: int,
    restored: Option<usize>,
    height: u16,
) -> (UiView, Flow, EffectView) {
    let go = Flow::Continue;
    match action {
        Action::Ignore => (ui, go, EffectView::Nothing),
        Action::Quit => (ui, Flow::Quit, EffectView::Nothing),
        Action::Refresh => (ui, Flow::Refresh, EffectView::Nothing),
        Action::Suspend => (ui, go, EffectView::Suspend),
        Action::ToggleHelp => (
            UiView { show_help: !ui.show_help, selected: None, ..ui },
            go,
            EffectView::Repaint,
        ),
        Action::SwitchView => (
            UiView {
                view: match ui.view {
                    Pane::Mine => Pane::Reviews,
                    Pane::Reviews => Pane::Mine,
                },
                selected: None,
                ..ui
            },
            go,
            EffectView::Repaint,
        ),
        Action::Search => (
            UiView { searching: true, selected: None, ..ui },
            go,
            EffectView::Repaint,
        ),
        Action::Cancel => if ui.search.len() == 0 {
            (ui, Flow::Quit, EffectView::Nothing)
        } else {
            (UiView { search: Seq::empty(), selected: None, ..ui }, go, EffectView::Repaint)
        },
        Action::Open => (
            ui,
            go,
            match url {
                Some(u) => EffectView::Open(u),
                None => EffectView::Nothing,
            },
        ),
        Action::Copy => (
            ui,
            go,
            match url {
                Some(u) => EffectView::Copy(u, 1),
                None => EffectView::Nothing,
            },
        ),
        Action::CopySection => (
            ui,
            go,
            if section.len() == 0 {
                EffectView::Nothing
            } else {
                EffectView::Copy(markdown(section), section.len())
            },
        ),
        Action::Move(m) => {
            let next = match moved_to(m, ui.selected, count, half) {
                Some(i) => Some(i as usize),
                None => None,
            };
            (
                UiView { selected: next, ..ui },
                go,
                if next == ui.selected {
                    EffectView::Nothing
                } else {
                    EffectView::Repaint
                },
            )
        },
        Action::Resize(w, h) => (
            UiView { selected: restored, ..ui },
            go,
            EffectView::Resize(w, height),
        ),
    }
}

/// What an action does while the search prompt is open.
pub open spec fn search_step(ui: UiView, action: SearchAction) -> (UiView, Flow, EffectView) {
    let go = Flow::Continue;
    match action {
        SearchAction::Ignore => (ui, go, EffectView::Nothing),
        SearchAction::Char(c) => (
            UiView { search: ui.search.push(c), selected: None, ..ui },
            go,
            EffectView::Repaint,
        ),
        SearchAction::Backspace => (
            UiView {
                search: if ui.search.len() > 0 {
                    ui.search.drop_last()
                } else {
                    ui.search
                },
                selected: None,
                ..ui
            },
            go,
            EffectView::Repaint,
        ),
        SearchAction::Enter => (UiView { searching: false, ..ui }, go, EffectView::Repaint),
        SearchAction::Esc => (
            UiView { search: Seq::empty(), searching: false, ..ui },
            go,
            EffectView::Repaint,
        ),
        SearchAction::Quit => (ui, Flow::Quit, EffectView::Nothing),
        SearchAction::Suspend => (ui, go, EffectView::Suspend),
        SearchAction::Resize(w, h) => (ui, go, EffectView::Resize(w, h)),
    }
}

/// The size of the screen after the terminal has changed its own: only a
/// dashboard that fills the screen follows the height.
pub open spec fn size_after(w: Watch, width: u16, height: u16, size: Size) -> Size {
    Size {
        width,
        height: if w.in_alt {
            height
        } else {
            size.height
        },
    }
}

impl Watch {
    /// What an action does to the watch on a screen of a size.
    pub open spec fn step_on(self, action: Action, size: Size, window_rows: Option<u16>) -> (
        UiView,
        Flow,
        EffectView,
    ) {
        let after = match action {
            Action::Resize(w, h) => size_after(self, w, h, size),
            _ => size,
        };
        step(
            self.ui@,
            action,
            self.url(size),
            self.section(size),
            self.targets(size).len() as int,
            half_of(window_rows),
            self.selection_of(self.url(size), after),
            after.height,
        )
    }

    /// Apply an action while no prompt is open.
    pub fn act(&mut self, action: Action, size: Size, window_rows: Option<u16>) -> (r: (
        Flow,
        Effect,
    ))
        ensures
            (final(self).ui@, r.0, r.1@) == old(self).step_on(action, size, window_rows),
            final(self).same_but_ui(*old(self)),
    {
        match action {
            Action::Ignore => (Flow::Continue, Effect::Nothing),
            Action::Quit => (Flow::Quit, Effect::Nothing),
            Action::Refresh => (Flow::Refresh, Effect::Nothing),
            Action::Suspend => (Flow::Continue, Effect::Suspend),
            Action::ToggleHelp => {
                self.ui.show_help = !self.ui.show_help;
                self.ui.selected = None;
                (Flow::Continue, Effect::Repaint)
            },
            Action::SwitchView => {
                self.ui.view = self.ui.view.toggle();
                self.ui.selected = None;
                (Flow::Continue, Effect::Repaint)
            },
            Action::Search => {
                self.ui.searching = true;
                self.ui.selected = None;
                (Flow::Continue, Effect::Repaint)
            },
            Action::Cancel => {
                if self.is_searched() {
                    self.ui.search = String::new();
                    self.ui.selected = None;
                    (Flow::Continue, Effect::Repaint)
                } else {
                    (Flow::Quit, Effect::Nothing)
                }
            },
            Action::Open => match self.selected_url(size) {
                Some(u) => (Flow::Continue, Effect::Open(u)),
                None => (Flow::Continue, Effect::Nothing),
            },
            Action::Copy => match self.selected_url(size) {
                Some(u) => (Flow::Continue, Effect::Copy(u, 1)),
                None => (Flow::Continue, Effect::Nothing),
            },
            Action::CopySection => {
                let urls = self.section_links(size);
                assert(views(urls@).len() == urls@.len());
                if urls.len() == 0 {
                    (Flow::Continue, Effect::Nothing)
                } else {
                    let list = markdown_list(&urls);
                    (Flow::Continue, Effect::Copy(list, urls.len()))
                }
            },
            Action::Move(m) => {
                let count = self.target_count(size);
                let next = moved(m, self.ui.selected, count, half_page(window_rows));
                if next != self.ui.selected {
                    self.ui.selected = next;
                    (Flow::Continue, Effect::Repaint)
                } else {
                    (Flow::Continue, Effect::Nothing)
                }
            },
            Action::Resize(w, h) => {
                let url = self.selected_url(size);
                let height: u16 = if self.in_alt {
                    h
                } else {
                    size.height
                };
                let after = Size { width: w, height };
                match &url {
                    Some(u) => self.restore_selection(Some(u.as_str()), after),
                    None => self.restore_selection(None, after),
                }
                (Flow::Continue, Effect::Resize(w, height))
            },
        }
    }

    /// Apply an action while the search prompt is open: typing filters at once,
    /// Enter keeps the filter, and Esc clears it.
    pub fn act_search(&mut self, action: SearchAction) -> (r: (Flow, Effect))
        ensures
            (final(self).ui@, r.0, r.1@) == search_step(old(self).ui@, action),
            final(self).same_but_ui(*old(self)),
    {
        match action {
            SearchAction::Ignore => (Flow::Continue, Effect::Nothing),
            SearchAction::Char(c) => {
                self.ui.search.push(c);
                self.ui.selected = None;
                (Flow::Continue, Effect::Repaint)
            },
            SearchAction::Backspace => {
                let _ = self.ui.search.pop();
                self.ui.selected = None;
                (Flow::Continue, Effect::Repaint)
            },
            SearchAction::Enter => {
                self.ui.searching = false;
                (Flow::Continue, Effect::Repaint)
            },
            SearchAction::Esc => {
                self.ui.search = String::new();
                self.ui.searching = false;
                (Flow::Continue, Effect::Repaint)
            },
            SearchAction::Quit => (Flow::Quit, Effect::Nothing),
            SearchAction::Suspend => (Flow::Continue, Effect::Suspend),
            SearchAction::Resize(w, h) => (Flow::Continue, Effect::Resize(w, h)),
        }
    }

    /// Apply an event. While the search prompt is open every key is text.
    pub fn handle_event(&mut self, ev: &Event, size: Size, window_rows: Option<u16>) -> (r: (
        Flow,
        Effect,
    ))
        ensures
            (final(self).ui@, r.0, r.1@) == if old(self).ui.searching {
                search_step(old(self).ui@, event_search(*ev))
            } else {
                old(self).step_on(event_action(*ev), size, window_rows)
            },
            final(self).same_but_ui(*old(self)),
    {
        if self.ui.searching {
            self.act_search(classify_search(ev))
        } else {
            self.act(classify(ev), size, window_rows)
        }
    }

    /// The sections to paint: those that the search leaves of the last ones that
    /// could be fetched, or none at all.
    pub open spec fn painted_sections(self) -> SectionsView {
        if self.last_good is Some {
            self.shown()
        } else {
            no_sections()
        }
    }

    /// The frame of the watch on a screen.
    pub open spec fn frame_on(
        self,
        screen: Limits,
        look: Look,
        next: Seq<char>,
        refreshing: bool,
    ) -> DrawnView {
        if self.in_alt {
            pinned_frame(
                screen,
                self.painted_sections(),
                self.ui,
                look,
                self.last_status@,
                Some((next, refreshing)),
            )
        } else {
            inline_frame(
                screen,
                self.painted_sections(),
                self.ui,
                look,
                self.last_status@,
                Some((next, refreshing)),
            )
        }
    }

    /// Draw the watch for a screen, with the changes marked. Before anything could
    /// be fetched the frame is empty but for its bottom.
    pub fn redraw(
        &self,
        screen: Limits,
        changes: &Changes,
        next: &str,
        refreshing: bool,
        ascii: bool,
        now: Timestamp,
    ) -> (r: Drawn)
        requires
            now.valid(),
        ensures
            r@ == self.frame_on(screen, look_of(*changes, ascii, now), next@, refreshing),
    {
        let status = self.last_status.as_str();
        let footer = Some((next, refreshing));
        let pinned = self.in_alt;
        match &self.last_good {
            Some(good) => if self.is_searched() {
                let found = filter(good, self.ui.search.as_str());
                render_dashboard(
                    screen,
                    &found,
                    &self.ui,
                    changes,
                    status,
                    footer,
                    ascii,
                    pinned,
                    now,
                )
            } else {
                render_dashboard(
                    screen,
                    good,
                    &self.ui,
                    changes,
                    status,
                    footer,
                    ascii,
                    pinned,
                    now,
                )
            },
            None => {
                let empty = Sections::empty();
                render_dashboard(
                    screen,
                    &empty,
                    &self.ui,
                    changes,
                    status,
                    footer,
                    ascii,
                    pinned,
                    now,
                )
            },
        }
    }

    /// The watch before anything is fetched.
    pub fn new(ui: Ui) -> (r: Watch)
        ensures
            r.ui == ui,
            r.last_good is None,
            r.prev is None,
            r.last_status@ == Seq::<char>::empty(),
            !r.armed,
            !r.in_alt,
    {
        Watch {
            ui,
            last_good: None,
            prev: None,
            last_status: String::new(),
            armed: false,
            in_alt: false,
        }
    }

    /// Start from cached sections: they are shown at once, and the first refresh
    /// marks what changed since.
    pub fn start_from(&mut self, cached: Sections)
        ensures
            final(self).last_good == Some(cached),
            final(self).prev matches Some(t) && tracks(t@, cached),
            final(self).in_alt,
            final(self).ui == old(self).ui,
            final(self).last_status == old(self).last_status,
            final(self).armed == old(self).armed,
    {
        self.prev = Some(track(&cached));
        self.last_good = Some(cached);
        self.in_alt = true;
    }

    /// Take in a refresh: tell the changes, clear the status line, keep the
    /// selected page selected, and fill the screen. The bell rings when something
    /// changed, unless this is the first refresh or the bell is off.
    pub fn apply(&mut self, sections: Sections, size: Size, no_bell: bool) -> (r: (Changes, bool))
        ensures
            final(self).last_good == Some(sections),
            final(self).prev matches Some(t) && tracks(t@, sections),
            final(self).last_status@ == Seq::<char>::empty(),
            final(self).armed,
            final(self).in_alt,
            final(self).ui.selected == (Watch {
                ui: old(self).ui,
                last_good: Some(sections),
                prev: final(self).prev,
                last_status: final(self).last_status,
                armed: old(self).armed,
                in_alt: old(self).in_alt,
            }).selection_of(old(self).url(size), size),
            final(self).ui@ == (UiView { selected: final(self).ui.selected, ..old(self).ui@ }),
            match old(self).prev {
                Some(p) => told(r.0, final(self).prev->0@, p@),
                None => nothing(r.0),
            },
            r.1 == (old(self).armed && !no_bell && something(r.0)),
    {
        let ghost before = *self;
        let selected = self.selected_url(size);
        let tracker = track(&sections);
        let changes = match &self.prev {
            Some(p) => tracker.diff(p),
            None => Changes::default(),
        };
        let bell = changes.any();
        self.last_status = String::new();
        self.prev = Some(tracker);
        self.last_good = Some(sections);
        let ghost mid = *self;
        match &selected {
            Some(u) => self.restore_selection(Some(u.as_str()), size),
            None => self.restore_selection(None, size),
        }
        proof {
            assert(mid.ui == before.ui);
        }
        let ring = self.armed && bell && !no_bell;
        self.armed = true;
        self.in_alt = true;
        (changes, ring)
    }

    /// Take in a refresh that failed: the last sections stay, a line says what
    /// went wrong, and nothing rings.
    pub fn show_error(&mut self, full: &str)
        ensures
            final(self).last_status@ == "error: "@ + short(full@),
            final(self).in_alt,
            final(self).ui@ == (UiView { selected: None, ..old(self).ui@ }),
            final(self).last_good == old(self).last_good,
            final(self).prev == old(self).prev,
            final(self).armed == old(self).armed,
    {
        let mut s = "error: ".to_string();
        let e = short_error(full);
        s.append(e.as_str());
        self.last_status = s;
        self.in_alt = true;
        self.ui.selected = None;
    }

    /// Say what came of copying `n` links.
    pub fn copied(&mut self, n: usize, failed: Option<&str>)
        ensures
            final(self).last_status@ == match failed {
                Some(e) => "error: copy failed: "@ + e@,
                None => "copied "@ + dec(n as nat) + " link"@ + if n == 1 {
                    ""@
                } else {
                    "s"@
                },
            },
            final(self).ui@ == (UiView { selected: None, ..old(self).ui@ }),
            final(self).last_good == old(self).last_good,
            final(self).prev == old(self).prev,
            final(self).armed == old(self).armed,
            final(self).in_alt == old(self).in_alt,
    {
        let s = match failed {
            Some(e) => {
                let mut s = "error: copy failed: ".to_string();
                s.append(e);
                s
            },
            None => {
                let mut s = "copied ".to_string();
                let number = decimal(n as u128);
                s.append(number.as_str());
                s.append(" link");
                if n == 1 {
                    s.append("");
                } else {
                    s.append("s");
                }
                s
            },
        };
        self.last_status = s;
        self.ui.selected = None;
    }

    /// Say that a page could not be opened.
    pub fn open_failed(&mut self, error: &str)
        ensures
            final(self).last_status@ == "error: open failed: "@ + error@,
            final(self).ui@ == (UiView { selected: None, ..old(self).ui@ }),
            final(self).last_good == old(self).last_good,
            final(self).prev == old(self).prev,
            final(self).armed == old(self).armed,
            final(self).in_alt == old(self).in_alt,
    {
        let mut s = "error: open failed: ".to_string();
        s.append(error);
        self.last_status = s;
        self.ui.selected = None;
    }
}

/// Whether a tracker is of the sections.
pub open spec fn tracks(t: TrackerView, s: Sections) -> bool {
    &&& t.open_status == statuses(
        match s@.prs {
            Some(rows) => rows,
            None => Seq::empty(),
        },
    )
    &&& t.merged == numbers(
        match s@.merged {
            Some(rows) => rows,
            None => Seq::empty(),
        },
    )
}

fn track(s: &Sections) -> (r: Tracker)
    ensures
        tracks(r@, *s),
{
    let open = match &s.prs {
        Some(rows) => Some(rows.as_slice()),
        None => None,
    };
    let merged = match &s.merged {
        Some(rows) => Some(rows.as_slice()),
        None => None,
    };
    Tracker::build(open, merged)
}

/// Whether the changes are those from one refresh to the next.
pub open spec fn told(c: Changes, now: TrackerView, prev: TrackerView) -> bool {
    &&& forall|n: i64| #[trigger] c.status_changed@.contains(n) <==> status_differs(now, prev, n)
    &&& forall|n: i64| #[trigger] c.newly_merged@.contains(n) <==> newly(now, prev, n)
}

/// Whether there are no changes.
pub open spec fn nothing(c: Changes) -> bool {
    &&& forall|n: i64| !#[trigger] c.status_changed@.contains(n)
    &&& forall|n: i64| !#[trigger] c.newly_merged@.contains(n)
}

/// What a fetch in the background has come to.
#[derive(Clone, Copy, Debug, PartialEq, Eq, Structural)]
pub enum FetchState {
    Pending,
    Arrived,
    Failed,
    /// It ended without a result.
    Lost,
}

/// What to do while a fetch is on.
#[derive(Clone, Copy, Debug, PartialEq, Eq, Structural)]
pub enum FetchNext {
    /// Leave.
    Quit,
    /// Show what arrived.
    Show,
    /// Say what went wrong.
    Report,
    /// Say that the fetch ended without a result.
    ReportLost,
    /// Go on without a result.
    GoOn,
    /// Look for keys.
    Poll,
}

/// What to do while a fetch is on. A request to end comes before its result.
/// While watching, a fetch without a result is tried again at the next refresh;
/// without a watch it is an error.
pub fn fetch_next(terminated: bool, state: FetchState, watching: bool) -> (r: FetchNext)
    ensures
        r == if terminated {
            FetchNext::Quit
        } else {
            match state {
                FetchState::Pending => FetchNext::Poll,
                FetchState::Arrived => FetchNext::Show,
                FetchState::Failed => FetchNext::Report,
                FetchState::Lost => if watching {
                    FetchNext::GoOn
                } else {
                    FetchNext::ReportLost
                },
            }
        },
{
    if terminated {
        return FetchNext::Quit;
    }
    match state {
        FetchState::Pending => FetchNext::Poll,
        FetchState::Arrived => FetchNext::Show,
        FetchState::Failed => FetchNext::Report,
        FetchState::Lost => if watching {
            FetchNext::GoOn
        } else {
            FetchNext::ReportLost
        },
    }
}

/// The first refresh of a watch never rings, and a refresh that shows what the
/// one before showed never does.
pub proof fn the_bell_needs_a_change(c: Changes, now: TrackerView, prev: TrackerView)
    requires
        told(c, now, prev),
        now == prev,
    ensures
        !something(c),
{
    if something(c) {
        let n = choose|n: i64|
            #[trigger] c.status_changed@.contains(n) || c.newly_merged@.contains(n);
        assert(!status_differs(now, prev, n) && !newly(now, prev, n));
        assert(c.newly_merged@.contains(n) <==> newly(now, prev, n));
    }
}

/// Opening the prompt, typing a query, erasing it and applying it leaves no
/// filter, and Esc leaves none whatever was typed.
pub proof fn a_query_can_be_taken_back(ui: UiView, c: char)
    ensures
        search_step(search_step(ui, SearchAction::Char(c)).0, SearchAction::Backspace).0.search
            == ui.search,
        search_step(ui, SearchAction::Esc).0.search.len() == 0,
        !search_step(ui, SearchAction::Esc).0.searching,
{
    assert(ui.search.push(c).drop_last() =~= ui.search);
}

/// Switching the view twice comes back to it, without a selection.
pub proof fn switching_twice_comes_back(ui: UiView, n: int, half: int, height: u16)
    ensures
        ({
            let once = step(ui, Action::SwitchView, None, Seq::empty(), n, half, None, height).0;
            let twice = step(
                once,
                Action::SwitchView,
                None,
                Seq::empty(),
                n,
                half,
                None,
                height,
            ).0;
            twice.view == ui.view && twice.selected is None
        }),
{
}

/// The rows of a section, none where it is disabled.
pub open spec fn listed_rows<A>(rows: Option<Seq<A>>) -> Seq<A> {
    match rows {
        Some(r) => r,
        None => Seq::empty(),
    }
}

/// The bell has cause to ring when the status of an open pull request is another
/// than at the refresh before, whatever the two are: `i` and `j` are the last rows
/// of its number in the two refreshes.
pub proof fn a_changed_status_gives_cause(
    c: Changes,
    now: TrackerView,
    prev: TrackerView,
    after: Sections,
    before: Sections,
    i: int,
    j: int,
)
    requires
        told(c, now, prev),
        tracks(now, after),
        tracks(prev, before),
        0 <= i < listed_rows(after@.prs).len(),
        0 <= j < listed_rows(before@.prs).len(),
        listed_rows(after@.prs)[i].number == listed_rows(before@.prs)[j].number,
        forall|k: int|
            i < k < listed_rows(after@.prs).len() ==> (#[trigger] listed_rows(after@.prs)[k]).number
                != listed_rows(after@.prs)[i].number,
        forall|k: int|
            j < k < listed_rows(before@.prs).len() ==> (#[trigger] listed_rows(
                before@.prs,
            )[k]).number != listed_rows(before@.prs)[j].number,
    ensures
        c.status_changed@.contains(listed_rows(after@.prs)[i].number) <==> listed_rows(
            after@.prs,
        )[i].status != listed_rows(before@.prs)[j].status,
        listed_rows(after@.prs)[i].status != listed_rows(before@.prs)[j].status ==> something(c),
{
    let rows = listed_rows(after@.prs);
    let old_rows = listed_rows(before@.prs);
    crate::changes::a_changed_status_is_noticed(now, prev, rows, old_rows, i, j);
    crate::changes::any_change_is_something(c, rows[i].number);
    assert(c.status_changed@.contains(rows[i].number) <==> status_differs(
        now,
        prev,
        rows[i].number,
    ));
}

/// The bell has cause to ring when a pull request is among the merged ones that
/// was not at the refresh before.
pub proof fn a_merge_gives_cause(
    c: Changes,
    now: TrackerView,
    prev: TrackerView,
    after: Sections,
    before: Sections,
    n: i64,
)
    requires
        told(c, now, prev),
        tracks(now, after),
        tracks(prev, before),
    ensures
        ({
            let merged = exists|i: int|
                0 <= i < listed_rows(after@.merged).len() && (#[trigger] listed_rows(
                    after@.merged,
                )[i]).number == n;
            let was = exists|i: int|
                0 <= i < listed_rows(before@.merged).len() && (#[trigger] listed_rows(
                    before@.merged,
                )[i]).number == n;
            &&& c.newly_merged@.contains(n) <==> merged && !was
            &&& merged && !was ==> something(c)
        }),
{
    crate::changes::a_merge_is_noticed(
        now,
        prev,
        listed_rows(after@.merged),
        listed_rows(before@.merged),
        n,
    );
    crate::changes::any_change_is_something(c, n);
    assert(c.newly_merged@.contains(n) <==> newly(now, prev, n));
}

/// A refresh without a changed status and without a new merge gives the bell no
/// cause.
pub proof fn nothing_new_gives_no_cause(c: Changes, now: TrackerView, prev: TrackerView)
    requires
        told(c, now, prev),
        forall|n: i64| !#[trigger] status_differs(now, prev, n),
        forall|n: i64| !#[trigger] newly(now, prev, n),
    ensures
        !something(c),
{
    assert forall|k: i64| !c.status_changed@.contains(k) by {
        assert(c.status_changed@.contains(k) <==> status_differs(now, prev, k));
    }
    assert forall|k: i64| !c.newly_merged@.contains(k) by {
        assert(c.newly_merged@.contains(k) <==> newly(now, prev, k));
    }
    crate::changes::any_change_is_something(c, 0);
}

/// Opening and copying are of the selected row: its page, and nothing without a
/// selection. They change nothing of the watch and leave it waiting.
pub proof fn the_selected_page_is_opened(w: Watch, size: Size, window_rows: Option<u16>)
    ensures
        ({
            let (ui, flow, effect) = w.step_on(Action::Open, size, window_rows);
            let (ui2, flow2, effect2) = w.step_on(Action::Copy, size, window_rows);
            &&& ui == w.ui@ && ui2 == w.ui@
            &&& flow == Flow::Continue && flow2 == Flow::Continue
            &&& w.ui.selected matches Some(i) ==> {
                &&& i < w.targets(size).len() ==> effect == EffectView::Open(
                    w.targets(size)[i as int],
                ) && effect2 == EffectView::Copy(w.targets(size)[i as int], 1)
                &&& i >= w.targets(size).len() ==> effect is Nothing && effect2 is Nothing
            }
            &&& w.ui.selected is None ==> effect is Nothing && effect2 is Nothing
        }),
{
}

/// Each row that can be selected is a row of the data that the search leaves, as
/// it is shown; without data there is none.
pub proof fn the_rows_are_those_shown(w: Watch, size: Size)
    ensures
        w.last_good is None ==> w.targets(size).len() == 0,
        w.last_good matches Some(good) ==> w.targets(size) == shown_targets(
            w.ui.view,
            if w.ui.search@.len() == 0 {
                good@
            } else {
                filtered(good@, w.ui.search@)
            },
            w.ui.search@,
            w.visible(size),
        ),
{
}

/// A list in Markdown has one line for each link, in their order.
pub proof fn a_list_has_a_line_for_each_link(urls: Seq<Seq<char>>, u: Seq<char>)
    ensures
        markdown(seq![u]) == "- "@ + u,
        urls.len() > 0 ==> markdown(urls.push(u)) == markdown(urls) + "\n"@ + "- "@ + u,
{
    assert(urls.push(u).drop_last() =~= urls);
}

/// Copying a section copies the pages of the section that the selected row is in,
/// the row's own among them, as a list.
pub proof fn a_copied_section_has_the_selected_row(
    w: Watch,
    size: Size,
    window_rows: Option<u16>,
    i: usize,
)
    requires
        w.ui.selected == Some(i),
        i < w.targets(size).len(),
    ensures
        ({
            let (ui, flow, effect) = w.step_on(Action::CopySection, size, window_rows);
            let s = w.section(size);
            &&& s.contains(w.targets(size)[i as int])
            &&& effect == EffectView::Copy(markdown(s), s.len())
            &&& ui == w.ui@
            &&& flow == Flow::Continue
        }),
{
    let lists = shown_links(w.ui.view, w.shown(), w.ui.search@, w.visible(size));
    crate::nav::the_section_has_the_selected_row(lists, i as int);
    let n = choose|n: int|
        #![trigger lists[n]]
        0 <= n < lists.len() && list_at(lists, i as int, 0) == lists[n] && 0 <= i
            - crate::nav::joined(lists.take(n)).len() < lists[n].len() && lists[n][i
            - crate::nav::joined(lists.take(n)).len()] == crate::nav::joined(lists)[i as int];
    let k = i - crate::nav::joined(lists.take(n)).len();
    assert(w.section(size)[k] == w.targets(size)[i as int]);
}

/// A change of size keeps the selected page selected where it is still shown, and
/// drops the selection where it is not.
pub proof fn a_resize_keeps_the_selected_page(
    w: Watch,
    size: Size,
    width: u16,
    height: u16,
    window_rows: Option<u16>,
    i: usize,
)
    requires
        w.ui.selected == Some(i),
        i < w.targets(size).len(),
        w.targets(size_after(w, width, height, size)).len() <= usize::MAX,
    ensures
        ({
            let (ui, flow, effect) = w.step_on(Action::Resize(width, height), size, window_rows);
            let url = w.targets(size)[i as int];
            let t = w.targets(size_after(w, width, height, size));
            &&& t.contains(url) ==> (ui.selected matches Some(k) && k < t.len() && t[k as int]
                == url)
            &&& !t.contains(url) ==> ui.selected is None
            &&& ui.view == w.ui.view && ui.search == w.ui.search@ && ui.show_help == w.ui.show_help
            &&& flow == Flow::Continue
            &&& effect == EffectView::Resize(
                width,
                if w.in_alt {
                    height
                } else {
                    size.height
                },
            )
        }),
{
    let url = w.targets(size)[i as int];
    let t = w.targets(size_after(w, width, height, size));
    if t.contains(url) {
        crate::nav::a_restored_selection_has_its_page(t, url);
    }
}

/// Only quitting ends the watch: the key for it, and Esc where no search is
/// applied. Only the key for it refreshes.
pub proof fn only_quitting_ends_the_watch(
    w: Watch,
    action: Action,
    size: Size,
    window_rows: Option<u16>,
)
    ensures
        w.step_on(action, size, window_rows).1 == Flow::Quit <==> action == Action::Quit || (action
            == Action::Cancel && w.ui.search@.len() == 0),
        w.step_on(action, size, window_rows).1 == Flow::Refresh <==> action == Action::Refresh,
{
}

/// Each key changes its own part of the state. The view is changed by the key that
/// switches it, the legend by its own, the search is cleared by Esc and by nothing
/// else, the prompt is opened by its key, and a movement moves the selection alone.
pub proof fn a_key_changes_its_own_part(
    w: Watch,
    action: Action,
    size: Size,
    window_rows: Option<u16>,
)
    ensures
        ({
            let (ui, flow, effect) = w.step_on(action, size, window_rows);
            &&& ui.view != w.ui.view <==> action == Action::SwitchView
            &&& ui.show_help != w.ui.show_help <==> action == Action::ToggleHelp
            &&& action == Action::Cancel ==> ui.search.len() == 0
            &&& action != Action::Cancel ==> ui.search == w.ui.search@
            &&& ui.searching <==> w.ui.searching || action == Action::Search
            &&& action == Action::SwitchView || action == Action::ToggleHelp || action
                == Action::Search ==> ui.selected is None
            &&& action == Action::Suspend ==> effect is Suspend
            &&& ui != w.ui@ ==> !(effect is Nothing)
        }),
{
}

/// A movement moves the selection among the rows that can be selected, and the
/// frame is painted again exactly if it did.
pub proof fn a_movement_moves_the_selection(
    w: Watch,
    m: crate::term::Wait,
    size: Size,
    window_rows: Option<u16>,
)
    requires
        w.targets(size).len() <= usize::MAX,
        w.ui.selected matches Some(i) ==> i < w.targets(size).len(),
    ensures
        ({
            let (ui, flow, effect) = w.step_on(Action::Move(m), size, window_rows);
            let n = w.targets(size).len() as int;
            let to = moved_to(m, w.ui.selected, n, half_of(window_rows));
            &&& ui.selected is Some <==> to is Some
            &&& ui.selected matches Some(k) ==> to == Some(k as int) && k < n
            &&& effect is Repaint <==> ui.selected != w.ui.selected
            &&& effect is Nothing <==> ui.selected == w.ui.selected
            &&& flow == Flow::Continue
        }),
{
    let n = w.targets(size).len() as int;
    crate::nav::a_movement_stays_in_the_list(m, w.ui.selected, n, half_of(window_rows));
}

/// Typing builds the query: a character goes to its end, Backspace takes the last
/// one off, Enter keeps the query and closes the prompt, Esc clears it and closes
/// the prompt, and nothing else changes it. No key of the prompt changes the view.
pub proof fn typing_builds_the_query(ui: UiView, action: SearchAction, c: char)
    ensures
        search_step(ui, SearchAction::Char(c)).0.search == ui.search + seq![c],
        search_step(ui, SearchAction::Char(c)).0.searching == ui.searching,
        ui.search.len() > 0 ==> search_step(ui, SearchAction::Backspace).0.search
            == ui.search.take(ui.search.len() - 1),
        search_step(ui, SearchAction::Enter).0.search == ui.search,
        !search_step(ui, SearchAction::Enter).0.searching,
        search_step(ui, SearchAction::Esc).0.search.len() == 0,
        !search_step(ui, SearchAction::Esc).0.searching,
        search_step(ui, action).0.view == ui.view,
        search_step(ui, action).0.show_help == ui.show_help,
        search_step(ui, action).1 == Flow::Quit <==> action == SearchAction::Quit,
        search_step(ui, action).1 != Flow::Refresh,
        search_step(ui, action).0.search != ui.search ==> action is Char || action is Backspace
            || action is Esc,
        action is Char || action is Backspace ==> search_step(ui, action).0.selected is None,
{
    assert(ui.search.push(c) =~= ui.search + seq![c]);
    if ui.search.len() > 0 {
        assert(ui.search.drop_last() =~= ui.search.take(ui.search.len() - 1));
    }
}

/// Half a page is half of the window's rows, rounded down, and one at least.
pub proof fn half_a_page_is_half(n: u16)
    ensures
        n >= 2 ==> n - 1 <= 2 * half_of(Some(n)) <= n,
        n < 2 ==> half_of(Some(n)) == 1,
        half_of(None) == 10,
{
}

/// A request to end comes before anything else, what arrived is shown, and a
/// failure is told; only a pending fetch looks for keys.
pub proof fn a_fetch_is_followed_up(
    terminated: bool,
    state: FetchState,
    watching: bool,
    r: FetchNext,
)
    requires
        call_ensures(fetch_next, (terminated, state, watching), r),
    ensures
        r == FetchNext::Quit <==> terminated,
        r == FetchNext::Show <==> !terminated && state == FetchState::Arrived,
        r == FetchNext::Report <==> !terminated && state == FetchState::Failed,
        r == FetchNext::Poll <==> !terminated && state == FetchState::Pending,
{
}

/// What a refresh does to the bell: it rings exactly if it is wanted, this is not
/// the first refresh, and something changed. The first refresh only arms it.
pub proof fn a_refresh_rings_for_changes(
    w: &mut Watch,
    sections: Sections,
    size: Size,
    no_bell: bool,
    r: (Changes, bool),
    n: i64,
)
    requires
        call_ensures(Watch::apply, (w, sections, size, no_bell), r),
    ensures
        final(w).armed,
        !old(w).armed ==> !r.1,
        no_bell ==> !r.1,
        old(w).prev is None ==> !r.1,
        old(w).armed && !no_bell && (r.0.status_changed@.contains(n) || r.0.newly_merged@.contains(
            n,
        )) ==> r.1,
        r.1 ==> exists|k: i64|
            r.0.newly_merged@.contains(k) || #[trigger] r.0.status_changed@.contains(k),
{
    crate::changes::any_change_is_something(r.0, n);
}

/// What a refresh tells of the open pull requests: the status of one that has a
/// row in the sections before and in the new ones is told as changed if and only
/// if the rows have different statuses, and the bell, where it may, rings for it.
pub proof fn a_refresh_tells_each_changed_status(
    w: &mut Watch,
    before: Sections,
    sections: Sections,
    size: Size,
    no_bell: bool,
    r: (Changes, bool),
    i: int,
    j: int,
)
    requires
        call_ensures(Watch::apply, (w, sections, size, no_bell), r),
        old(w).prev matches Some(t) && tracks(t@, before),
        0 <= i < listed_rows(sections@.prs).len(),
        0 <= j < listed_rows(before@.prs).len(),
        listed_rows(sections@.prs)[i].number == listed_rows(before@.prs)[j].number,
        forall|k: int|
            i < k < listed_rows(sections@.prs).len() ==> (#[trigger] listed_rows(
                sections@.prs,
            )[k]).number != listed_rows(sections@.prs)[i].number,
        forall|k: int|
            j < k < listed_rows(before@.prs).len() ==> (#[trigger] listed_rows(
                before@.prs,
            )[k]).number != listed_rows(before@.prs)[j].number,
    ensures
        r.0.status_changed@.contains(listed_rows(sections@.prs)[i].number) <==> listed_rows(
            sections@.prs,
        )[i].status != listed_rows(before@.prs)[j].status,
        old(w).armed && !no_bell && listed_rows(sections@.prs)[i].status != listed_rows(
            before@.prs,
        )[j].status ==> r.1,
        final(w).prev matches Some(t) && tracks(t@, sections),
{
    a_changed_status_gives_cause(
        r.0,
        final(w).prev->0@,
        old(w).prev->0@,
        sections,
        before,
        i,
        j,
    );
}

/// What a refresh tells of merges: a pull request is told as newly merged if and
/// only if it is among the merged ones of the new sections and was not before, and
/// the bell, where it may, rings for it.
pub proof fn a_refresh_tells_each_merge(
    w: &mut Watch,
    before: Sections,
    sections: Sections,
    size: Size,
    no_bell: bool,
    r: (Changes, bool),
    n: i64,
)
    requires
        call_ensures(Watch::apply, (w, sections, size, no_bell), r),
        old(w).prev matches Some(t) && tracks(t@, before),
    ensures
        ({
            let merged = exists|i: int|
                0 <= i < listed_rows(sections@.merged).len() && (#[trigger] listed_rows(
                    sections@.merged,
                )[i]).number == n;
            let was = exists|i: int|
                0 <= i < listed_rows(before@.merged).len() && (#[trigger] listed_rows(
                    before@.merged,
                )[i]).number == n;
            &&& r.0.newly_merged@.contains(n) <==> merged && !was
            &&& old(w).armed && !no_bell && merged && !was ==> r.1
        }),
{
    a_merge_gives_cause(r.0, final(w).prev->0@, old(w).prev->0@, sections, before, n);
}

/// What a refresh shows: the new sections, with the view, the search and the legend
/// as they were, and without an error line.
pub proof fn a_refresh_shows_what_it_brought(
    w: &mut Watch,
    sections: Sections,
    size: Size,
    no_bell: bool,
    r: (Changes, bool),
)
    requires
        call_ensures(Watch::apply, (w, sections, size, no_bell), r),
    ensures
        final(w).last_good == Some(sections),
        final(w).last_status@.len() == 0,
        final(w).ui.view == old(w).ui.view,
        final(w).ui.search@ == old(w).ui.search@,
        final(w).ui.searching == old(w).ui.searching,
        final(w).ui.show_help == old(w).ui.show_help,
        old(w).ui.selected is None ==> final(w).ui.selected is None,
{
    assert(final(w).ui@ == (UiView { selected: final(w).ui.selected, ..old(w).ui@ }));
    assert(final(w).ui@.view == final(w).ui.view && old(w).ui@.view == old(w).ui.view);
    assert(final(w).ui@.search == final(w).ui.search@ && old(w).ui@.search == old(w).ui.search@);
    assert(final(w).ui@.searching == final(w).ui.searching);
    assert(final(w).ui@.show_help == final(w).ui.show_help);
}

/// A refresh that failed loses nothing: what was shown is still shown, what
/// changes are told against stays, the bell stays as it was, and a line tells the
/// error.
pub proof fn a_failed_refresh_loses_nothing(w: &mut Watch, full: &str)
    requires
        call_ensures(Watch::show_error, (w, full), ()),
    ensures
        final(w).last_good == old(w).last_good,
        final(w).prev == old(w).prev,
        final(w).armed == old(w).armed,
        final(w).last_status@ == "error: "@ + short(full@),
        final(w).ui@.view == old(w).ui@.view,
        final(w).ui@.search == old(w).ui@.search,
{
}

/// What the keys do: opening gives the page of the selected row, switching gives
/// the other view, and none of them touches the data.
pub proof fn a_key_acts_on_the_watch(
    w: &mut Watch,
    action: Action,
    size: Size,
    window_rows: Option<u16>,
    r: (Flow, Effect),
    i: usize,
)
    requires
        call_ensures(Watch::act, (w, action, size, window_rows), r),
    ensures
        final(w).last_good == old(w).last_good,
        final(w).prev == old(w).prev,
        final(w).armed == old(w).armed,
        final(w).last_status == old(w).last_status,
        r.0 == Flow::Quit <==> action == Action::Quit || (action == Action::Cancel && old(w).ui.search@.len() == 0),
        r.0 == Flow::Refresh <==> action == Action::Refresh,
        action == Action::Open && old(w).ui.selected == Some(i) && i < old(w).targets(size).len()
            ==> r.1@ == EffectView::Open(old(w).targets(size)[i as int]),
        action == Action::Copy && old(w).ui.selected == Some(i) && i < old(w).targets(size).len()
            ==> r.1@ == EffectView::Copy(old(w).targets(size)[i as int], 1),
        final(w).ui@.view != old(w).ui@.view <==> action == Action::SwitchView,
        final(w).ui@.show_help != old(w).ui@.show_help <==> action == Action::ToggleHelp,
        action != Action::Cancel ==> final(w).ui@.search == old(w).ui@.search,
        action == Action::Cancel ==> final(w).ui@.search.len() == 0,
{
    only_quitting_ends_the_watch(*old(w), action, size, window_rows);
    a_key_changes_its_own_part(*old(w), action, size, window_rows);
    the_selected_page_is_opened(*old(w), size, window_rows);
}

/// What the keys of the prompt do: they build the query, and touch nothing else.
pub proof fn a_key_of_the_prompt_builds_the_query(
    w: &mut Watch,
    action: SearchAction,
    r: (Flow, Effect),
)
    requires
        call_ensures(Watch::act_search, (w, action), r),
    ensures
        final(w).last_good == old(w).last_good,
        final(w).ui@.view == old(w).ui@.view,
        action matches SearchAction::Char(c) ==> final(w).ui@.search == old(w).ui@.search + seq![c],
        action == SearchAction::Enter ==> final(w).ui@.search == old(w).ui@.search && !final(w).ui@.searching,
        action == SearchAction::Esc ==> final(w).ui@.search.len() == 0 && !final(w).ui@.searching,
        r.0 == Flow::Quit <==> action == SearchAction::Quit,
{
    let c = if let SearchAction::Char(c) = action {
        c
    } else {
        ' '
    };
    typing_builds_the_query(old(w).ui@, action, c);
}

/// Starting from cached sections shows them at once, and leaves the bell unarmed,
/// so that the first refresh marks what changed since without ringing.
pub proof fn a_start_from_the_cache_is_silent(w: &mut Watch, cached: Sections)
    requires
        call_ensures(Watch::start_from, (w, cached), ()),
    ensures
        final(w).last_good == Some(cached),
        final(w).prev matches Some(t) && tracks(t@, cached),
        final(w).armed == old(w).armed,
{
}

/// What an event does: while the prompt is open a plain character goes to the
/// query, whatever it does else; while it is not, no event touches the query but
/// Esc. No event touches the data.
pub proof fn an_event_goes_to_the_prompt_while_it_is_open(
    w: &mut Watch,
    ev: &Event,
    size: Size,
    window_rows: Option<u16>,
    r: (Flow, Effect),
    k: crate::ui::KeyPress,
    c: char,
)
    requires
        call_ensures(Watch::handle_event, (w, ev, size, window_rows), r),
        *ev == Event::KeyPress(k),
        k.code == crate::ui::KeyCode::Char(c),
        !k.ctrl,
        !k.alt,
        !crate::ui::is_key(k, "ctrl+c"@),
    ensures
        old(w).ui.searching ==> final(w).ui@.search == old(w).ui@.search + seq![c] && r.0
            == Flow::Continue,
        !old(w).ui.searching && !crate::ui::is_key(k, "esc"@) ==> final(w).ui@.search == old(
            w).ui@.search,
        final(w).last_good == old(w).last_good,
        final(w).armed == old(w).armed,
{
    if old(w).ui.searching {
        crate::ui::typing_is_text(k, c);
        typing_builds_the_query(old(w).ui@, SearchAction::Char(c), c);
    } else {
        crate::ui::each_action_has_its_keys(k);
        a_key_changes_its_own_part(*old(w), event_action(*ev), size, window_rows);
    }
}

/// What is painted is what the search leaves of the last sections that could be
/// fetched: all of them without a search, and nothing before there are any. A
/// screen that is not filled shows all that there is.
pub proof fn the_last_sections_are_painted(w: Watch, size: Size)
    ensures
        w.last_good is None ==> w.painted_sections() == no_sections(),
        w.last_good matches Some(good) ==> (w.ui.search@.len() == 0 ==> w.painted_sections()
            == good@),
        w.last_good matches Some(good) ==> (w.ui.search@.len() > 0 ==> w.painted_sections()
            == filtered(good@, w.ui.search@)),
        w.last_good is Some && !w.in_alt ==> w.visible(size) == all_visible(w.painted_sections()),
{
}

} // verus!
