//! The interactive state of the dashboard, and what keys mean to it.

use crate::cli::{Cli, Pane};
use crate::term::Wait;
use crate::text::{chars_of, first_line, line_one, opt_view, string_of};
use vstd::prelude::*;

verus! {

/// The state that painting depends on and that keys change.
#[derive(Debug)]
pub struct Ui {
    /// The active view.
    pub view: Pane,
    /// Whether the help legend is shown.
    pub show_help: bool,
    /// The selected row among the rows of the active view that can be selected;
    /// `None` until the user moves the cursor.
    pub selected: Option<usize>,
    /// The search query; empty when no filter is applied.
    pub search: String,
    /// Whether the search prompt is open.
    pub searching: bool,
}

/// What the state holds.
pub struct UiView {
    pub view: Pane,
    pub show_help: bool,
    pub selected: Option<usize>,
    pub search: Seq<char>,
    pub searching: bool,
}

impl View for Ui {
    type V = UiView;

    open spec fn view(&self) -> UiView {
        UiView {
            view: self.view,
            show_help: self.show_help,
            selected: self.selected,
            search: self.search@,
            searching: self.searching,
        }
    }
}

impl Ui {
    /// The state for output without interaction: the chosen view, the legend
    /// unless it is unwanted, no selection and no search.
    pub fn once(cli: &Cli) -> (r: Ui)
        ensures
            r@ == (UiView {
                view: cli.view,
                show_help: !cli.no_reference,
                selected: None,
                search: Seq::empty(),
                searching: false,
            }),
    {
        Ui {
            view: cli.view,
            show_help: !cli.no_reference,
            selected: None,
            search: String::new(),
            searching: false,
        }
    }

    /// The state at the start of watching: the chosen view, and nothing else.
    pub fn watching(cli: &Cli) -> (r: Ui)
        ensures
            r@ == (UiView {
                view: cli.view,
                show_help: false,
                selected: None,
                search: Seq::empty(),
                searching: false,
            }),
    {
        Ui {
            view: cli.view,
            show_help: false,
            selected: None,
            search: String::new(),
            searching: false,
        }
    }
}

/// The keys that the search prompt tells apart.
#[derive(Clone, Copy, Debug, PartialEq, Eq, Structural)]
pub enum KeyCode {
    Char(char),
    Space,
    Backspace,
    Enter,
    Escape,
    Other,
}

/// A key that was pressed.
#[derive(Clone, Debug)]
pub struct KeyPress {
    pub code: KeyCode,
    pub ctrl: bool,
    pub alt: bool,
    /// The name of the key with its modifiers, such as `ctrl+c`.
    pub name: String,
    /// The text that the key stands for on the user's keyboard, if known.
    pub text: Option<String>,
}

/// What comes from the terminal.
#[derive(Clone, Debug)]
pub enum Event {
    KeyPress(KeyPress),
    /// The terminal has so many columns and rows now.
    Resize(u16, u16),
    Other,
}

/// What an event means while no prompt is open.
#[derive(Clone, Copy, Debug, PartialEq, Eq, Structural)]
pub enum Action {
    /// Nothing.
    Ignore,
    /// `q` or Ctrl-C: quit.
    Quit,
    /// `r`: refresh now.
    Refresh,
    /// `?`: toggle the help legend.
    ToggleHelp,
    /// Tab: switch to the other view.
    SwitchView,
    /// Enter: open the selected row in the browser.
    Open,
    /// `y`: copy the link of the selected row.
    Copy,
    /// `Y`: copy every link of the section that the cursor is in.
    CopySection,
    /// `/`: open the search prompt.
    Search,
    /// Esc: clear an applied filter, or quit when there is none.
    Cancel,
    /// Move the selection.
    Move(Wait),
    /// Ctrl-Z: suspend.
    Suspend,
    /// The terminal has so many columns and rows now.
    Resize(u16, u16),
}

/// What an event means while the search prompt is open.
#[derive(Clone, Copy, Debug, PartialEq, Eq, Structural)]
pub enum SearchAction {
    /// Nothing.
    Ignore,
    /// A character to append to the query.
    Char(char),
    /// Drop the last character of the query.
    Backspace,
    /// Apply the filter and leave the prompt.
    Enter,
    /// Clear the filter and leave the prompt.
    Esc,
    /// Ctrl-C: quit.
    Quit,
    /// Ctrl-Z: suspend.
    Suspend,
    /// The terminal has so many columns and rows now.
    Resize(u16, u16),
}

/// Whether a key, given by its name and its text, is the one that a pattern
/// such as `ctrl+c` names.
pub uninterp spec fn key_matches(
    name: Seq<char>,
    text: Option<Seq<char>>,
    pattern: Seq<char>,
) -> bool;

/// `uncurses::event::Key::matches`, on the key of that name with that text: the
/// text counts before the name, and a name that is none matches nothing.
#[verifier::external_body]
fn matches(key: &KeyPress, pattern: &str) -> (r: bool)
    ensures
        r == key_matches(key.name@, opt_view(key.text), pattern@),
{
    let parsed = key.name.parse::<uncurses::event::Key>();
    parsed.is_ok_and(
        |k| uncurses::event::Key { text: key.text.clone(), ..k }.matches(pattern),
    )
}

/// Which of the bindings a key is.
#[derive(Clone, Copy, Debug, PartialEq, Eq)]
pub struct KeyHits {
    pub quit: bool,
    pub cancel: bool,
    pub refresh: bool,
    pub help: bool,
    pub switch_view: bool,
    pub open: bool,
    pub copy: bool,
    pub copy_section: bool,
    pub search: bool,
    pub suspend: bool,
    pub down: bool,
    pub up: bool,
    pub top: bool,
    pub bottom: bool,
    pub half_down: bool,
    pub half_up: bool,
}

/// Whether a key is the one that a pattern names.
pub open spec fn is_key(k: KeyPress, pattern: Seq<char>) -> bool {
    key_matches(k.name@, opt_view(k.text), pattern)
}

/// The bindings.
pub open spec fn hits_of(k: KeyPress) -> KeyHits {
    KeyHits {
        quit: is_key(k, "q"@) || is_key(k, "Q"@) || is_key(k, "ctrl+c"@),
        cancel: is_key(k, "esc"@),
        refresh: is_key(k, "r"@) || is_key(k, "R"@),
        help: is_key(k, "?"@),
        switch_view: is_key(k, "tab"@),
        open: is_key(k, "enter"@),
        copy: is_key(k, "y"@),
        copy_section: is_key(k, "Y"@),
        search: is_key(k, "/"@),
        suspend: is_key(k, "ctrl+z"@),
        down: is_key(k, "j"@) || is_key(k, "down"@),
        up: is_key(k, "k"@) || is_key(k, "up"@),
        top: is_key(k, "g"@),
        bottom: is_key(k, "G"@),
        half_down: is_key(k, "ctrl+d"@),
        half_up: is_key(k, "ctrl+u"@),
    }
}

fn key_hits(k: &KeyPress) -> (r: KeyHits)
    ensures
        r == hits_of(*k),
{
    KeyHits {
        quit: matches(k, "q") || matches(k, "Q") || matches(k, "ctrl+c"),
        cancel: matches(k, "esc"),
        refresh: matches(k, "r") || matches(k, "R"),
        help: matches(k, "?"),
        switch_view: matches(k, "tab"),
        open: matches(k, "enter"),
        copy: matches(k, "y"),
        copy_section: matches(k, "Y"),
        search: matches(k, "/"),
        suspend: matches(k, "ctrl+z"),
        down: matches(k, "j") || matches(k, "down"),
        up: matches(k, "k") || matches(k, "up"),
        top: matches(k, "g"),
        bottom: matches(k, "G"),
        half_down: matches(k, "ctrl+d"),
        half_up: matches(k, "ctrl+u"),
    }
}

/// The action of a key: of the bindings that it is, the first.
pub open spec fn action_of_hits(h: KeyHits) -> Action {
    if h.quit {
        Action::Quit
    } else if h.cancel {
        Action::Cancel
    } else if h.refresh {
        Action::Refresh
    } else if h.help {
        Action::ToggleHelp
    } else if h.switch_view {
        Action::SwitchView
    } else if h.open {
        Action::Open
    } else if h.copy {
        Action::Copy
    } else if h.copy_section {
        Action::CopySection
    } else if h.search {
        Action::Search
    } else if h.suspend {
        Action::Suspend
    } else if h.down {
        Action::Move(Wait::Down)
    } else if h.up {
        Action::Move(Wait::Up)
    } else if h.top {
        Action::Move(Wait::Top)
    } else if h.bottom {
        Action::Move(Wait::Bottom)
    } else if h.half_down {
        Action::Move(Wait::HalfDown)
    } else if h.half_up {
        Action::Move(Wait::HalfUp)
    } else {
        Action::Ignore
    }
}

/// The action of a key by the bindings that it is.
pub fn action_for(h: KeyHits) -> (r: Action)
    ensures
        r == action_of_hits(h),
{
    if h.quit {
        Action::Quit
    } else if h.cancel {
        Action::Cancel
    } else if h.refresh {
        Action::Refresh
    } else if h.help {
        Action::ToggleHelp
    } else if h.switch_view {
        Action::SwitchView
    } else if h.open {
        Action::Open
    } else if h.copy {
        Action::Copy
    } else if h.copy_section {
        Action::CopySection
    } else if h.search {
        Action::Search
    } else if h.suspend {
        Action::Suspend
    } else if h.down {
        Action::Move(Wait::Down)
    } else if h.up {
        Action::Move(Wait::Up)
    } else if h.top {
        Action::Move(Wait::Top)
    } else if h.bottom {
        Action::Move(Wait::Bottom)
    } else if h.half_down {
        Action::Move(Wait::HalfDown)
    } else if h.half_up {
        Action::Move(Wait::HalfUp)
    } else {
        Action::Ignore
    }
}

/// What an event means while no prompt is open.
pub open spec fn event_action(ev: Event) -> Action {
    match ev {
        Event::KeyPress(k) => action_of_hits(hits_of(k)),
        Event::Resize(w, h) => Action::Resize(w, h),
        Event::Other => Action::Ignore,
    }
}

/// Classify an event while no prompt is open. In raw mode the signal keys come
/// as ordinary keys, so they are told apart here.
pub fn classify(ev: &Event) -> (r: Action)
    ensures
        r == event_action(*ev),
{
    match ev {
        Event::KeyPress(k) => action_for(key_hits(k)),
        Event::Resize(w, h) => Action::Resize(*w, *h),
        Event::Other => Action::Ignore,
    }
}

/// What a key means while the search prompt is open, by whether it is the one
/// to quit or the one to suspend.
pub open spec fn search_key(k: KeyPress, quit: bool, suspend: bool) -> SearchAction {
    if quit {
        SearchAction::Quit
    } else {
        match k.code {
            KeyCode::Char(c) => if !k.ctrl && !k.alt {
                SearchAction::Char(c)
            } else if suspend {
                SearchAction::Suspend
            } else {
                SearchAction::Ignore
            },
            KeyCode::Space => SearchAction::Char(' '),
            KeyCode::Backspace => SearchAction::Backspace,
            KeyCode::Enter => SearchAction::Enter,
            KeyCode::Escape => SearchAction::Esc,
            KeyCode::Other => if suspend {
                SearchAction::Suspend
            } else {
                SearchAction::Ignore
            },
        }
    }
}

/// What a key means while the search prompt is open.
pub fn search_action(k: &KeyPress, quit: bool, suspend: bool) -> (r: SearchAction)
    ensures
        r == search_key(*k, quit, suspend),
{
    if quit {
        return SearchAction::Quit;
    }
    match k.code {
        KeyCode::Char(c) => {
            if !k.ctrl && !k.alt {
                return SearchAction::Char(c);
            }
        },
        KeyCode::Space => {
            return SearchAction::Char(' ');
        },
        KeyCode::Backspace => {
            return SearchAction::Backspace;
        },
        KeyCode::Enter => {
            return SearchAction::Enter;
        },
        KeyCode::Escape => {
            return SearchAction::Esc;
        },
        KeyCode::Other => {},
    }
    if suspend {
        SearchAction::Suspend
    } else {
        SearchAction::Ignore
    }
}

/// What an event means while the search prompt is open.
pub open spec fn event_search(ev: Event) -> SearchAction {
    match ev {
        Event::KeyPress(k) => search_key(k, is_key(k, "ctrl+c"@), is_key(k, "ctrl+z"@)),
        Event::Resize(w, h) => SearchAction::Resize(w, h),
        Event::Other => SearchAction::Ignore,
    }
}

/// Classify an event while the search prompt is open: characters extend the
/// query, and `q` is one of them. Ctrl-C quits.
pub fn classify_search(ev: &Event) -> (r: SearchAction)
    ensures
        r == event_search(*ev),
{
    match ev {
        Event::KeyPress(k) => {
            let quit = matches(k, "ctrl+c");
            let suspend = matches(k, "ctrl+z");
            search_action(k, quit, suspend)
        },
        Event::Resize(w, h) => SearchAction::Resize(*w, *h),
        Event::Other => SearchAction::Ignore,
    }
}

/// The first line of an error, cut to 120 characters, the last of which is an
/// ellipsis where something is cut.
pub open spec fn short(full: Seq<char>) -> Seq<char> {
    let first = first_line(full);
    if first.len() > 120 {
        first.take(119) + "\u{2026}"@
    } else {
        first
    }
}

/// The first line of an error, cut to fit the status line.
pub fn short_error(full: &str) -> (r: String)
    ensures
        r@ == short(full@),
        r@.len() <= 120,
{
    let first = line_one(full);
    let cs = chars_of(first.as_str());
    if cs.len() > 120 {
        let mut s = string_of(&cs, 0, 119);
        proof {
            reveal_strlit("\u{2026}");
            assert(cs@.subrange(0, 119) =~= cs@.take(119));
        }
        s.append("\u{2026}");
        s
    } else {
        first
    }
}

/// Whether a key is the one that a pattern names, and no other.
pub open spec fn is_only(k: KeyPress, pattern: Seq<char>) -> bool {
    is_key(k, pattern) && forall|p: Seq<char>| #[trigger] is_key(k, p) ==> p == pattern
}

/// Each key does what the legend says of it.
pub proof fn each_key_has_its_action(k: KeyPress)
    ensures
        ({
            let a = event_action(Event::KeyPress(k));
            &&& is_only(k, "q"@) || is_only(k, "Q"@) || is_only(k, "ctrl+c"@) ==> a == Action::Quit
            &&& is_only(k, "esc"@) ==> a == Action::Cancel
            &&& is_only(k, "r"@) || is_only(k, "R"@) ==> a == Action::Refresh
            &&& is_only(k, "?"@) ==> a == Action::ToggleHelp
            &&& is_only(k, "tab"@) ==> a == Action::SwitchView
            &&& is_only(k, "enter"@) ==> a == Action::Open
            &&& is_only(k, "y"@) ==> a == Action::Copy
            &&& is_only(k, "Y"@) ==> a == Action::CopySection
            &&& is_only(k, "/"@) ==> a == Action::Search
            &&& is_only(k, "ctrl+z"@) ==> a == Action::Suspend
            &&& is_only(k, "j"@) || is_only(k, "down"@) ==> a == Action::Move(Wait::Down)
            &&& is_only(k, "k"@) || is_only(k, "up"@) ==> a == Action::Move(Wait::Up)
            &&& is_only(k, "g"@) ==> a == Action::Move(Wait::Top)
            &&& is_only(k, "G"@) ==> a == Action::Move(Wait::Bottom)
            &&& is_only(k, "ctrl+d"@) ==> a == Action::Move(Wait::HalfDown)
            &&& is_only(k, "ctrl+u"@) ==> a == Action::Move(Wait::HalfUp)
            &&& (forall|p: Seq<char>| !#[trigger] is_key(k, p)) ==> a == Action::Ignore
        }),
{
    reveal_strlit("q");
    reveal_strlit("Q");
    reveal_strlit("ctrl+c");
    reveal_strlit("esc");
    reveal_strlit("r");
    reveal_strlit("R");
    reveal_strlit("?");
    reveal_strlit("tab");
    reveal_strlit("enter");
    reveal_strlit("y");
    reveal_strlit("Y");
    reveal_strlit("/");
    reveal_strlit("ctrl+z");
    reveal_strlit("j");
    reveal_strlit("down");
    reveal_strlit("k");
    reveal_strlit("up");
    reveal_strlit("g");
    reveal_strlit("G");
    reveal_strlit("ctrl+d");
    reveal_strlit("ctrl+u");
    assert("enter"@.len() == 5 && "esc"@.len() == 3 && "tab"@.len() == 3 && "down"@.len() == 4
        && "up"@.len() == 2);
    assert("ctrl+c"@.len() == 6 && "ctrl+z"@.len() == 6 && "ctrl+d"@.len() == 6 && "ctrl+u"@.len()
        == 6);
    assert("q"@.len() == 1 && "Q"@.len() == 1 && "r"@.len() == 1 && "R"@.len() == 1 && "?"@.len()
        == 1 && "y"@.len() == 1 && "Y"@.len() == 1 && "/"@.len() == 1 && "j"@.len() == 1
        && "k"@.len() == 1 && "g"@.len() == 1 && "G"@.len() == 1);
    assert("q"@[0] == 'q' && "Q"@[0] == 'Q' && "r"@[0] == 'r' && "R"@[0] == 'R' && "?"@[0] == '?');
    assert("y"@[0] == 'y' && "Y"@[0] == 'Y' && "/"@[0] == '/' && "j"@[0] == 'j' && "k"@[0] == 'k');
    assert("g"@[0] == 'g' && "G"@[0] == 'G' && "esc"@[0] == 'e' && "tab"@[0] == 't');
    assert("ctrl+c"@[5] == 'c' && "ctrl+z"@[5] == 'z' && "ctrl+d"@[5] == 'd' && "ctrl+u"@[5]
        == 'u');
}

/// An action comes only of its own keys: nothing quits but `q` and Ctrl-C, nothing
/// refreshes but `r`, and so on.
pub proof fn each_action_has_its_keys(k: KeyPress)
    ensures
        ({
            let a = event_action(Event::KeyPress(k));
            &&& a == Action::Quit <==> is_key(k, "q"@) || is_key(k, "Q"@) || is_key(k, "ctrl+c"@)
            &&& a == Action::Cancel ==> is_key(k, "esc"@)
            &&& a == Action::Refresh ==> is_key(k, "r"@) || is_key(k, "R"@)
            &&& a == Action::ToggleHelp ==> is_key(k, "?"@)
            &&& a == Action::SwitchView ==> is_key(k, "tab"@)
            &&& a == Action::Open ==> is_key(k, "enter"@)
            &&& a == Action::Copy ==> is_key(k, "y"@)
            &&& a == Action::CopySection ==> is_key(k, "Y"@)
            &&& a == Action::Search ==> is_key(k, "/"@)
            &&& a == Action::Suspend ==> is_key(k, "ctrl+z"@)
            &&& a == Action::Move(Wait::Down) ==> is_key(k, "j"@) || is_key(k, "down"@)
            &&& a == Action::Move(Wait::Up) ==> is_key(k, "k"@) || is_key(k, "up"@)
            &&& a == Action::Move(Wait::Top) ==> is_key(k, "g"@)
            &&& a == Action::Move(Wait::Bottom) ==> is_key(k, "G"@)
            &&& a == Action::Move(Wait::HalfDown) ==> is_key(k, "ctrl+d"@)
            &&& a == Action::Move(Wait::HalfUp) ==> is_key(k, "ctrl+u"@)
        }),
{
}

/// While the search prompt is open a plain character is text, whatever it does
/// else, unless it is the key that quits; Enter, Esc, Backspace and the space key
/// do their part.
pub proof fn typing_is_text(k: KeyPress, c: char)
    requires
        !is_key(k, "ctrl+c"@),
    ensures
        ({
            let a = event_search(Event::KeyPress(k));
            &&& k.code == KeyCode::Char(c) && !k.ctrl && !k.alt ==> a == SearchAction::Char(c)
            &&& k.code == KeyCode::Space ==> a == SearchAction::Char(' ')
            &&& k.code == KeyCode::Backspace ==> a == SearchAction::Backspace
            &&& k.code == KeyCode::Enter ==> a == SearchAction::Enter
            &&& k.code == KeyCode::Escape ==> a == SearchAction::Esc
            &&& a matches SearchAction::Char(d) ==> k.code == KeyCode::Char(d) || (k.code
                == KeyCode::Space && d == ' ')
            &&& a != SearchAction::Quit
            &&& a == SearchAction::Suspend ==> is_key(k, "ctrl+z"@)
        }),
{
}

/// A short error is the beginning of the first line: all of it up to 120
/// characters, and else the first 119 of it and an ellipsis.
pub proof fn a_short_error_begins_the_line(full: Seq<char>)
    ensures
        short(full).len() <= 120,
        first_line(full).len() <= 120 ==> short(full) == first_line(full),
        first_line(full).len() > 120 ==> short(full).len() == 120 && short(full)[119] == '\u{2026}'
            && short(full).take(119) == first_line(full).take(119),
{
    reveal_strlit("\u{2026}");
    if first_line(full).len() > 120 {
        assert(short(full).take(119) =~= first_line(full).take(119));
    }
}

/// A run starts in the chosen view, without a selection and without a search. The
/// legend is shown at once only in output without interaction, unless it is
/// unwanted.
pub proof fn a_run_starts_in_the_chosen_view(cli: &Cli, once: Ui, watching: Ui)
    requires
        call_ensures(Ui::once, (cli,), once),
        call_ensures(Ui::watching, (cli,), watching),
    ensures
        once@.view == cli.view && watching@.view == cli.view,
        once@.show_help <==> !cli.no_reference,
        !watching@.show_help,
        once@.selected is None && watching@.selected is None,
        once@.search.len() == 0 && watching@.search.len() == 0,
        !once@.searching && !watching@.searching,
{
}

} // verus!
