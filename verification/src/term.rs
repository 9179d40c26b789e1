//! Reading the keyboard: what a burst of input bytes means, in the dashboard and
//! in the search prompt, and what to do after each poll of the terminal.

use vstd::prelude::*;

verus! {

/// The outcome of waiting for the next refresh while watching.
#[derive(Clone, Copy, Debug, PartialEq, Eq, Structural)]
pub enum Wait {
    /// The interval elapsed: do a scheduled refresh.
    Tick,
    /// `r` or `R`: refresh now.
    Refresh,
    /// `?`: toggle the help legend.
    ToggleHelp,
    /// Tab: switch to the other view.
    SwitchView,
    /// `k` or the up arrow: move the selection up one row.
    Up,
    /// `j` or the down arrow: move the selection down one row.
    Down,
    /// `g`: move the selection to the first row.
    Top,
    /// `G`: move the selection to the last row.
    Bottom,
    /// Ctrl-U: move the selection up half a page.
    HalfUp,
    /// Ctrl-D: move the selection down half a page.
    HalfDown,
    /// Enter: open the selected row in the browser.
    Open,
    /// `/`: open the search prompt.
    Search,
    /// A lone Esc: clear an applied search filter.
    Cancel,
}

/// A keystroke while the search prompt is open.
#[derive(Clone, Copy, Debug, PartialEq, Eq, Structural)]
pub enum SearchKey {
    /// A printable character to append to the query.
    Char(char),
    /// Drop the last query character.
    Backspace,
    /// Apply the filter and leave the prompt.
    Enter,
    /// Clear the filter and leave the prompt.
    Esc,
    /// The interval elapsed with no input: do a scheduled refresh.
    Tick,
}

/// Whether the escape sequence `ESC [ c` stands somewhere in the bytes.
pub open spec fn has_arrow(bytes: Seq<u8>, c: u8) -> bool {
    exists|i: int|
        0 <= i && i + 2 < bytes.len() && #[trigger] bytes[i] == 0x1b && bytes[i + 1] == 0x5b
            && bytes[i + 2] == c
}

/// The action of a burst of bytes. Actions come before movement, so a stray
/// arrow in the same burst cannot shadow them.
pub open spec fn action_of(bytes: Seq<u8>) -> Option<Wait> {
    if bytes.contains(0x0d) || bytes.contains(0x0a) {
        Some(Wait::Open)
    } else if bytes.contains(0x72) || bytes.contains(0x52) {
        Some(Wait::Refresh)
    } else if bytes.contains(0x09) {
        Some(Wait::SwitchView)
    } else if bytes.contains(0x3f) {
        Some(Wait::ToggleHelp)
    } else if bytes.contains(0x2f) {
        Some(Wait::Search)
    } else if bytes.contains(0x67) {
        Some(Wait::Top)
    } else if bytes.contains(0x47) {
        Some(Wait::Bottom)
    } else if bytes.contains(0x04) {
        Some(Wait::HalfDown)
    } else if bytes.contains(0x15) {
        Some(Wait::HalfUp)
    } else if bytes.contains(0x6b) || has_arrow(bytes, 0x41) {
        Some(Wait::Up)
    } else if bytes.contains(0x6a) || has_arrow(bytes, 0x42) {
        Some(Wait::Down)
    } else if bytes.len() == 1 && bytes[0] == 0x1b {
        Some(Wait::Cancel)
    } else {
        None
    }
}

fn has(bytes: &[u8], b: u8) -> (r: bool)
    ensures
        r == bytes@.contains(b),
{
    let mut i: usize = 0;
    while i < bytes.len()
        invariant
            i <= bytes@.len(),
            forall|k: int| 0 <= k < i ==> bytes@[k] != b,
        decreases bytes@.len() - i,
    {
        if bytes[i] == b {
            assert(bytes@[i as int] == b);
            return true;
        }
        i += 1;
    }
    false
}

fn arrow(bytes: &[u8], c: u8) -> (r: bool)
    ensures
        r == has_arrow(bytes@, c),
{
    let mut i: usize = 0;
    while i < bytes.len() && bytes.len() - i > 2
        invariant
            i <= bytes@.len(),
            forall|k: int|
                0 <= k < i && k + 2 < bytes@.len() ==> !(#[trigger] bytes@[k] == 0x1b && bytes@[k
                    + 1] == 0x5b && bytes@[k + 2] == c),
        decreases bytes@.len() - i,
    {
        if bytes[i] == 0x1b && bytes[i + 1] == 0x5b && bytes[i + 2] == c {
            assert(bytes@[i as int] == 0x1b);
            return true;
        }
        i += 1;
    }
    false
}

/// Map a burst of input bytes to the action of highest priority among those
/// that it holds, if any. Enter arrives as CR or LF, the arrows as `ESC [ A` and
/// `ESC [ B`.
pub fn classify(bytes: &[u8]) -> (r: Option<Wait>)
    ensures
        r == action_of(bytes@),
{
    if has(bytes, 0x0d) || has(bytes, 0x0a) {
        Some(Wait::Open)
    } else if has(bytes, 0x72) || has(bytes, 0x52) {
        Some(Wait::Refresh)
    } else if has(bytes, 0x09) {
        Some(Wait::SwitchView)
    } else if has(bytes, 0x3f) {
        Some(Wait::ToggleHelp)
    } else if has(bytes, 0x2f) {
        Some(Wait::Search)
    } else if has(bytes, 0x67) {
        Some(Wait::Top)
    } else if has(bytes, 0x47) {
        Some(Wait::Bottom)
    } else if has(bytes, 0x04) {
        Some(Wait::HalfDown)
    } else if has(bytes, 0x15) {
        Some(Wait::HalfUp)
    } else if has(bytes, 0x6b) || arrow(bytes, 0x41) {
        Some(Wait::Up)
    } else if has(bytes, 0x6a) || arrow(bytes, 0x42) {
        Some(Wait::Down)
    } else if bytes.len() == 1 && bytes[0] == 0x1b {
        Some(Wait::Cancel)
    } else {
        None
    }
}

/// The keystroke of one byte in the search prompt, if it is one.
pub open spec fn key_of(b: u8) -> Option<SearchKey> {
    if b == 0x1b {
        Some(SearchKey::Esc)
    } else if b == 0x0d || b == 0x0a {
        Some(SearchKey::Enter)
    } else if b == 0x7f || b == 0x08 {
        Some(SearchKey::Backspace)
    } else if 0x20 <= b <= 0x7e {
        Some(SearchKey::Char(b as char))
    } else {
        None
    }
}

/// Whether the bytes begin with an escape sequence, such as that of an arrow.
pub open spec fn at_sequence(bytes: Seq<u8>) -> bool {
    bytes.len() > 1 && bytes[0] == 0x1b && (bytes[1] == 0x5b || bytes[1] == 0x4f)
}

/// The keystrokes of a burst of bytes: escape sequences of three bytes are
/// swallowed, and every other byte stands for itself.
pub open spec fn keys_of(bytes: Seq<u8>) -> Seq<SearchKey>
    decreases bytes.len(),
{
    if bytes.len() == 0 {
        Seq::empty()
    } else if at_sequence(bytes) {
        if bytes.len() <= 3 {
            Seq::empty()
        } else {
            keys_of(bytes.skip(3))
        }
    } else {
        match key_of(bytes[0]) {
            Some(k) => seq![k] + keys_of(bytes.drop_first()),
            None => keys_of(bytes.drop_first()),
        }
    }
}

/// Parse raw input bytes into search keystrokes: printable ASCII is text, CR and
/// LF are Enter, DEL and BS are Backspace, a lone ESC is Esc. Escape sequences
/// and every other byte are ignored.
pub fn parse_search(bytes: &[u8]) -> (r: Vec<SearchKey>)
    ensures
        r@ == keys_of(bytes@),
{
    let mut out: Vec<SearchKey> = Vec::new();
    let mut i: usize = 0;
    proof {
        assert(bytes@.skip(0) =~= bytes@);
        assert(out@ + keys_of(bytes@) =~= keys_of(bytes@));
    }
    while i < bytes.len()
        invariant
            i <= bytes@.len(),
            out@ + keys_of(bytes@.skip(i as int)) == keys_of(bytes@),
        decreases bytes@.len() - i,
    {
        let ghost rest = bytes@.skip(i as int);
        let ghost before = out@;
        let b = bytes[i];
        assert(rest[0] == b);
        if b == 0x1b && bytes.len() - i > 1 && (bytes[i + 1] == 0x5b || bytes[i + 1] == 0x4f) {
            assert(at_sequence(rest));
            if bytes.len() - i <= 3 {
                assert(out@ + Seq::<SearchKey>::empty() =~= out@);
                return out;
            }
            assert(rest.skip(3) =~= bytes@.skip(i + 3));
            i += 3;
            continue ;
        }
        assert(!at_sequence(rest));
        assert(rest.drop_first() =~= bytes@.skip(i + 1));
        let key = if b == 0x1b {
            Some(SearchKey::Esc)
        } else if b == 0x0d || b == 0x0a {
            Some(SearchKey::Enter)
        } else if b == 0x7f || b == 0x08 {
            Some(SearchKey::Backspace)
        } else if 0x20 <= b && b <= 0x7e {
            Some(SearchKey::Char(b as char))
        } else {
            None
        };
        if let Some(k) = key {
            out.push(k);
            proof {
                assert(before + (seq![k] + keys_of(bytes@.skip(i + 1))) =~= out@ + keys_of(
                    bytes@.skip(i + 1),
                ));
            }
        }
        i += 1;
    }
    proof {
        assert(bytes@.skip(i as int) =~= Seq::empty());
        assert(out@ + Seq::<SearchKey>::empty() =~= out@);
    }
    out
}

/// Whether an outcome moves the selection.
pub open spec fn is_movement(w: Wait) -> bool {
    match w {
        Wait::Up | Wait::Down | Wait::Top | Wait::Bottom | Wait::HalfUp | Wait::HalfDown => true,
        _ => false,
    }
}

/// A stray movement in the same burst cannot shadow an action: opening comes
/// before everything, and refreshing, switching the view, the legend and the
/// search before any movement.
pub proof fn actions_win_over_movement(bytes: Seq<u8>)
    ensures
        bytes.contains(0x0d) || bytes.contains(0x0a) ==> action_of(bytes) == Some(Wait::Open),
        bytes.contains(0x72) || bytes.contains(0x52) || bytes.contains(0x09) || bytes.contains(
            0x3f,
        ) || bytes.contains(0x2f) ==> (action_of(bytes) matches Some(w) && !is_movement(w)),
{
}

/// Typed text comes through byte for byte.
pub proof fn text_is_read_as_typed(bytes: Seq<u8>)
    requires
        forall|i: int| 0 <= i < bytes.len() ==> 0x20 <= #[trigger] bytes[i] <= 0x7e,
    ensures
        keys_of(bytes).len() == bytes.len(),
        forall|i: int|
            0 <= i < bytes.len() ==> #[trigger] keys_of(bytes)[i] == SearchKey::Char(
                bytes[i] as char,
            ),
    decreases bytes.len(),
{
    if bytes.len() > 0 {
        let t = bytes.drop_first();
        assert(0x20 <= bytes[0] <= 0x7e);
        assert forall|i: int| 0 <= i < t.len() implies 0x20 <= #[trigger] t[i] <= 0x7e by {
            assert(t[i] == bytes[i + 1]);
        }
        text_is_read_as_typed(t);
        assert(keys_of(bytes) == seq![SearchKey::Char(bytes[0] as char)] + keys_of(t));
        assert forall|i: int| 0 <= i < bytes.len() implies #[trigger] keys_of(bytes)[i]
            == SearchKey::Char(bytes[i] as char) by {
            if i > 0 {
                assert(keys_of(bytes)[i] == keys_of(t)[i - 1]);
                assert(t[i - 1] == bytes[i]);
            }
        }
    }
}

/// What to do with the time that is left before the next refresh: poll for at
/// most so many milliseconds, or not at all when there is none.
pub fn poll_timeout(remaining_nanos: u128) -> (r: Option<i32>)
    ensures
        r is None <==> remaining_nanos == 0,
        r matches Some(ms) ==> ms == if remaining_nanos / 1_000_000 > i32::MAX {
            i32::MAX as int
        } else {
            (remaining_nanos / 1_000_000) as int
        },
{
    if remaining_nanos == 0 {
        return None;
    }
    let ms: u128 = remaining_nanos / 1_000_000;
    if ms > 0x7fff_ffff {
        Some(0x7fff_ffff)
    } else {
        Some(ms as i32)
    }
}

/// What to do after a poll of the terminal.
#[derive(Clone, Copy, Debug, PartialEq, Eq, Structural)]
pub enum AfterPoll {
    /// A signal interrupted the poll: try again.
    Retry,
    /// The terminal cannot be polled: sleep out the interval, then tick.
    SleepOut,
    /// Nothing was typed in time: tick.
    TimedOut,
    /// There is input: read it.
    Read,
}

/// Decide by what the poll returned, and by whether a failure was only an
/// interruption.
pub fn after_poll(code: i32, interrupted: bool) -> (r: AfterPoll)
    ensures
        r == if code > 0 {
            AfterPoll::Read
        } else if code == 0 {
            AfterPoll::TimedOut
        } else if interrupted {
            AfterPoll::Retry
        } else {
            AfterPoll::SleepOut
        },
{
    if code < 0 {
        if interrupted {
            return AfterPoll::Retry;
        }
        return AfterPoll::SleepOut;
    }
    if code == 0 {
        return AfterPoll::TimedOut;
    }
    AfterPoll::Read
}

/// How many bytes a read gave, if it gave any: an error and the end of the input
/// both count as none.
pub fn bytes_read(n: isize) -> (r: Option<usize>)
    ensures
        r == if n > 0 {
            Some(n as usize)
        } else {
            None
        },
{
    if n > 0 {
        Some(n as usize)
    } else {
        None
    }
}

/// What a wait comes to when a read gave `bytes`: an action, or nothing, which
/// keeps waiting. Without bytes the interval elapsed.
pub fn wait(bytes: Option<&[u8]>) -> (r: Option<Wait>)
    ensures
        r == match bytes {
            Some(b) => action_of(b@),
            None => Some(Wait::Tick),
        },
{
    match bytes {
        Some(b) => classify(b),
        None => Some(Wait::Tick),
    }
}

/// The search keystrokes of a read; without bytes the interval elapsed.
pub fn read_search(bytes: Option<&[u8]>) -> (r: Vec<SearchKey>)
    ensures
        r@ == match bytes {
            Some(b) => keys_of(b@),
            None => seq![SearchKey::Tick],
        },
{
    match bytes {
        Some(b) => parse_search(b),
        None => {
            let mut out: Vec<SearchKey> = Vec::new();
            out.push(SearchKey::Tick);
            assert(out@ =~= seq![SearchKey::Tick]);
            out
        },
    }
}

/// A key that comes alone does its own action, and a byte that is no key does
/// none.
pub proof fn each_byte_has_its_action(b: u8)
    ensures
        action_of(seq![b]) == if b == 0x0d || b == 0x0a {
            Some(Wait::Open)
        } else if b == 'r' as u8 || b == 'R' as u8 {
            Some(Wait::Refresh)
        } else if b == 0x09 {
            Some(Wait::SwitchView)
        } else if b == '?' as u8 {
            Some(Wait::ToggleHelp)
        } else if b == '/' as u8 {
            Some(Wait::Search)
        } else if b == 'g' as u8 {
            Some(Wait::Top)
        } else if b == 'G' as u8 {
            Some(Wait::Bottom)
        } else if b == 0x04 {
            Some(Wait::HalfDown)
        } else if b == 0x15 {
            Some(Wait::HalfUp)
        } else if b == 'k' as u8 {
            Some(Wait::Up)
        } else if b == 'j' as u8 {
            Some(Wait::Down)
        } else if b == 0x1b {
            Some(Wait::Cancel)
        } else {
            None
        },
{
    let s = seq![b];
    assert(s[0] == b);
    assert forall|c: u8| #[trigger] s.contains(c) <==> c == b by {
        if c == b {
            assert(s[0] == c);
        }
    }
}

} // verus!
