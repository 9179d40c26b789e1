//! The shared status palette: one lookup for the glyph, colour and meaning of a
//! CI or pull-request status. Catppuccin Mocha colours and Nerd Font glyphs.

use crate::model::{CheckSuite, CheckSuites, PrNode};
use crate::text::{opt_str_view, opt_view, same};
use vstd::prelude::*;

verus! {

/// A 24-bit colour.
pub type Rgb = (u8, u8, u8);

pub const GREEN: Rgb = (166, 227, 161);

pub const RED: Rgb = (243, 139, 168);

pub const YELLOW: Rgb = (249, 226, 175);

pub const MAUVE: Rgb = (203, 166, 247);

pub const PEACH: Rgb = (250, 179, 135);

pub const BLUE: Rgb = (137, 180, 250);

pub const LAVENDER: Rgb = (180, 190, 254);

pub const TEAL: Rgb = (148, 226, 213);

/// Marks what changed since the last refresh.
pub const PINK: Rgb = (245, 194, 231);

/// Text that steps back: placeholders and scroll hints.
pub const OVERLAY: Rgb = (108, 112, 134);

/// The background of the selected row.
pub const SURFACE: Rgb = (49, 50, 68);

/// How a run of text looks.
#[derive(Clone, Copy, Debug, PartialEq, Eq)]
pub struct Style {
    pub fg: Option<Rgb>,
    pub bg: Option<Rgb>,
    pub bold: bool,
    pub faint: bool,
    pub italic: bool,
    pub underline: bool,
}

/// Text with no styling at all.
pub open spec fn unstyled() -> Style {
    Style { fg: None, bg: None, bold: false, faint: false, italic: false, underline: false }
}

/// Text in one foreground colour.
pub open spec fn in_color(rgb: Rgb) -> Style {
    Style { fg: Some(rgb), ..unstyled() }
}

/// Faint text.
pub open spec fn in_faint() -> Style {
    Style { faint: true, ..unstyled() }
}

impl Style {
    /// No styling.
    pub fn new() -> (r: Style)
        ensures
            r == unstyled(),
    {
        Style { fg: None, bg: None, bold: false, faint: false, italic: false, underline: false }
    }

    /// This style, in bold.
    pub fn bold(self) -> (r: Style)
        ensures
            r == (Style { bold: true, ..self }),
    {
        Style { bold: true, ..self }
    }

    /// This style, faint.
    pub fn dimmed(self) -> (r: Style)
        ensures
            r == (Style { faint: true, ..self }),
    {
        Style { faint: true, ..self }
    }

    /// This style, in italics.
    pub fn italic(self) -> (r: Style)
        ensures
            r == (Style { italic: true, ..self }),
    {
        Style { italic: true, ..self }
    }

    /// This style, underlined.
    pub fn underline(self) -> (r: Style)
        ensures
            r == (Style { underline: true, ..self }),
    {
        Style { underline: true, ..self }
    }

    /// This style, on a background.
    pub fn on(self, rgb: Rgb) -> (r: Style)
        ensures
            r == (Style { bg: Some(rgb), ..self }),
    {
        Style { bg: Some(rgb), ..self }
    }
}

/// The status of a pull request's checks and mergeability.
#[derive(Clone, Copy, Debug, PartialEq, Eq, Structural)]
pub enum Status {
    Merged,
    Conflicts,
    Fail,
    Pending,
    Pass,
}

/// What a pull request in the reviews view asks of the viewer.
#[derive(Clone, Copy, Debug, PartialEq, Eq, Structural)]
pub enum ReviewState {
    /// A review is requested and none was given yet.
    Awaiting,
    /// A review was given, and another one is requested.
    ReReview,
    /// A review was given, and commits were pushed since.
    Updated,
    /// A review was given and nothing happened since.
    Reviewed,
}

/// All statuses in legend order.
pub const ORDER: [Status; 5] = [
    Status::Pass,
    Status::Fail,
    Status::Pending,
    Status::Conflicts,
    Status::Merged,
];

/// All review states in legend order, most actionable first.
pub const REVIEW_ORDER: [ReviewState; 4] = [
    ReviewState::Awaiting,
    ReviewState::ReReview,
    ReviewState::Updated,
    ReviewState::Reviewed,
];

/// The `mergeStateStatus` values in legend order.
pub const STATE_ORDER: [&'static str; 8] = [
    "CLEAN",
    "UNSTABLE",
    "BLOCKED",
    "BEHIND",
    "DIRTY",
    "DRAFT",
    "HAS_HOOKS",
    "UNKNOWN",
];

/// The palette: glyph and colour of each status.
pub open spec fn palette(s: Status) -> (char, Rgb) {
    match s {
        Status::Pass => ('\u{F058}', GREEN),
        Status::Fail => ('\u{F057}', RED),
        Status::Pending => ('\u{F111}', YELLOW),
        Status::Merged => ('\u{E0A0}', MAUVE),
        Status::Conflicts => ('\u{F071}', PEACH),
    }
}

/// The letter that stands for a status where there are no glyphs.
pub open spec fn letter(s: Status) -> char {
    match s {
        Status::Pass => 'P',
        Status::Fail => 'x',
        Status::Pending => '.',
        Status::Merged => 'm',
        Status::Conflicts => '!',
    }
}

/// What is drawn for a status.
pub open spec fn sign(s: Status, ascii: bool) -> char {
    if ascii {
        letter(s)
    } else {
        palette(s).0
    }
}

/// Glyph and colour of a status.
pub fn status_style(s: Status) -> (r: (char, Rgb))
    ensures
        r == palette(s),
{
    match s {
        Status::Pass => ('\u{F058}', GREEN),
        Status::Fail => ('\u{F057}', RED),
        Status::Pending => ('\u{F111}', YELLOW),
        Status::Merged => ('\u{E0A0}', MAUVE),
        Status::Conflicts => ('\u{F071}', PEACH),
    }
}

/// The letter for a status on a terminal without glyphs, or in piped output.
pub fn status_ascii(s: Status) -> (r: char)
    ensures
        r == letter(s),
{
    match s {
        Status::Pass => 'P',
        Status::Fail => 'x',
        Status::Pending => '.',
        Status::Merged => 'm',
        Status::Conflicts => '!',
    }
}

/// The glyph to draw, honouring the ASCII toggle.
pub fn glyph(s: Status, ascii: bool) -> (r: char)
    ensures
        r == sign(s, ascii),
{
    if ascii {
        status_ascii(s)
    } else {
        status_style(s).0
    }
}

/// The palette of the review states.
pub open spec fn review_palette(s: ReviewState) -> (char, Rgb) {
    match s {
        ReviewState::Awaiting => ('\u{F06E}', PEACH),
        ReviewState::ReReview => ('\u{F021}', YELLOW),
        ReviewState::Updated => ('\u{F062}', BLUE),
        ReviewState::Reviewed => ('\u{F00C}', GREEN),
    }
}

/// What is drawn for a review state.
pub open spec fn review_sign(s: ReviewState, ascii: bool) -> char {
    if ascii {
        match s {
            ReviewState::Awaiting => 'a',
            ReviewState::ReReview => 'r',
            ReviewState::Updated => 'u',
            ReviewState::Reviewed => '.',
        }
    } else {
        review_palette(s).0
    }
}

/// Glyph and colour of a review state.
pub fn review_style(s: ReviewState) -> (r: (char, Rgb))
    ensures
        r == review_palette(s),
{
    match s {
        ReviewState::Awaiting => ('\u{F06E}', PEACH),
        ReviewState::ReReview => ('\u{F021}', YELLOW),
        ReviewState::Updated => ('\u{F062}', BLUE),
        ReviewState::Reviewed => ('\u{F00C}', GREEN),
    }
}

/// The glyph to draw for a review state, honouring the ASCII toggle.
pub fn review_glyph(s: ReviewState, ascii: bool) -> (r: char)
    ensures
        r == review_sign(s, ascii),
{
    if ascii {
        match s {
            ReviewState::Awaiting => 'a',
            ReviewState::ReReview => 'r',
            ReviewState::Updated => 'u',
            ReviewState::Reviewed => '.',
        }
    } else {
        review_style(s).0
    }
}

/// No two statuses share a glyph, a letter or a colour, so a row's status can
/// be told from any one of them.
pub proof fn statuses_are_told_apart(a: Status, b: Status)
    ensures
        palette(a).0 == palette(b).0 <==> a == b,
        palette(a).1 == palette(b).1 <==> a == b,
        letter(a) == letter(b) <==> a == b,
{
}

/// What each status means, in the words of the legend.
pub open spec fn meaning(s: Status) -> Seq<char> {
    match s {
        Status::Pass => "all checks that ran passed"@,
        Status::Fail => "a check that ran failed"@,
        Status::Pending => "checks still running"@,
        Status::Merged => "merged"@,
        Status::Conflicts => "merge conflict; needs a rebase"@,
    }
}

/// One-line meaning of a status.
pub fn status_meaning(s: Status) -> (r: &'static str)
    ensures
        r@ == meaning(s),
{
    match s {
        Status::Pass => "all checks that ran passed",
        Status::Fail => "a check that ran failed",
        Status::Pending => "checks still running",
        Status::Merged => "merged",
        Status::Conflicts => "merge conflict; needs a rebase",
    }
}

/// What a `mergeStateStatus` value means; nothing is said of an unknown one.
pub open spec fn meaning_of_state(state: Seq<char>) -> Seq<char> {
    if state == "CLEAN"@ {
        "mergeable; all required checks green"@
    } else if state == "UNSTABLE"@ {
        "mergeable, but non-required checks are failing or pending"@
    } else if state == "BLOCKED"@ {
        "blocked; required reviews or checks not satisfied"@
    } else if state == "BEHIND"@ {
        "behind the base branch; needs an update"@
    } else if state == "DIRTY"@ {
        "merge conflict"@
    } else if state == "DRAFT"@ {
        "draft; not ready to merge"@
    } else if state == "HAS_HOOKS"@ {
        "mergeable, with pre-receive hooks"@
    } else if state == "UNKNOWN"@ {
        "mergeability not yet computed"@
    } else {
        ""@
    }
}

/// One-line meaning of a `mergeStateStatus` value.
pub fn state_meaning(state: &str) -> (r: &'static str)
    ensures
        r@ == meaning_of_state(state@),
{
    if same(state, "CLEAN") {
        "mergeable; all required checks green"
    } else if same(state, "UNSTABLE") {
        "mergeable, but non-required checks are failing or pending"
    } else if same(state, "BLOCKED") {
        "blocked; required reviews or checks not satisfied"
    } else if same(state, "BEHIND") {
        "behind the base branch; needs an update"
    } else if same(state, "DIRTY") {
        "merge conflict"
    } else if same(state, "DRAFT") {
        "draft; not ready to merge"
    } else if same(state, "HAS_HOOKS") {
        "mergeable, with pre-receive hooks"
    } else if same(state, "UNKNOWN") {
        "mergeability not yet computed"
    } else {
        ""
    }
}

/// The style of a `mergeStateStatus` value: green can merge, yellow waits, red
/// cannot, and anything else is faint.
pub open spec fn style_of_state(state: Seq<char>) -> Style {
    if state == "CLEAN"@ || state == "HAS_HOOKS"@ {
        in_color(GREEN)
    } else if state == "UNSTABLE"@ || state == "BLOCKED"@ || state == "BEHIND"@ {
        in_color(YELLOW)
    } else if state == "DIRTY"@ || state == "DRAFT"@ {
        in_color(RED)
    } else {
        in_faint()
    }
}

/// The style of a `mergeStateStatus` value.
pub fn state_style(state: &str) -> (r: Style)
    ensures
        r == style_of_state(state@),
{
    if same(state, "CLEAN") || same(state, "HAS_HOOKS") {
        fg(GREEN)
    } else if same(state, "UNSTABLE") || same(state, "BLOCKED") || same(state, "BEHIND") {
        fg(YELLOW)
    } else if same(state, "DIRTY") || same(state, "DRAFT") {
        fg(RED)
    } else {
        Style::new().dimmed()
    }
}

/// The label of a `mergeStateStatus` value: `DIRTY` reads as `CONFLICTS`, and
/// everything else is shown as it is.
pub open spec fn label_of_state(state: Seq<char>) -> Seq<char> {
    if state == "DIRTY"@ {
        "CONFLICTS"@
    } else {
        state
    }
}

/// Display label for a `mergeStateStatus` value.
pub fn state_label(state: &str) -> (r: &str)
    ensures
        r@ == label_of_state(state@),
{
    if same(state, "DIRTY") {
        "CONFLICTS"
    } else {
        state
    }
}

/// The glyph of a `mergeStateStatus` value.
pub open spec fn glyph_of_state(state: Seq<char>) -> char {
    if state == "CLEAN"@ || state == "HAS_HOOKS"@ {
        '\u{f00c}'
    } else if state == "UNSTABLE"@ {
        '\u{f06a}'
    } else if state == "BLOCKED"@ {
        '\u{f023}'
    } else if state == "BEHIND"@ {
        '\u{f063}'
    } else if state == "DIRTY"@ {
        '\u{f127}'
    } else if state == "DRAFT"@ {
        '\u{f040}'
    } else {
        '\u{f128}'
    }
}

/// Nerd Font glyph for a `mergeStateStatus` value: a check, an exclamation mark,
/// a lock, a down arrow, a broken link, a pencil, or a question mark.
pub fn state_glyph(state: &str) -> (r: char)
    ensures
        r == glyph_of_state(state@),
{
    if same(state, "CLEAN") || same(state, "HAS_HOOKS") {
        '\u{f00c}'
    } else if same(state, "UNSTABLE") {
        '\u{f06a}'
    } else if same(state, "BLOCKED") {
        '\u{f023}'
    } else if same(state, "BEHIND") {
        '\u{f063}'
    } else if same(state, "DIRTY") {
        '\u{f127}'
    } else if same(state, "DRAFT") {
        '\u{f040}'
    } else {
        '\u{f128}'
    }
}

/// A merge-state glyph is never a status glyph, so the two columns of a row
/// cannot be taken for each other.
pub proof fn state_glyphs_are_not_status_glyphs(state: Seq<char>, s: Status)
    ensures
        glyph_of_state(state) != palette(s).0,
{
}

/// A foreground colour and nothing else.
pub fn fg(rgb: Rgb) -> (r: Style)
    ensures
        r == in_color(rgb),
{
    Style { fg: Some(rgb), bg: None, bold: false, faint: false, italic: false, underline: false }
}

/// The check-suite conclusions that count as a failure.
pub const FAIL_CONCLUSIONS: [&'static str; 5] = [
    "FAILURE",
    "STARTUP_FAILURE",
    "CANCELLED",
    "TIMED_OUT",
    "ACTION_REQUIRED",
];

/// Whether a conclusion is a failing one.
pub open spec fn is_failure(conclusion: Seq<char>) -> bool {
    ||| conclusion == "FAILURE"@
    ||| conclusion == "STARTUP_FAILURE"@
    ||| conclusion == "CANCELLED"@
    ||| conclusion == "TIMED_OUT"@
    ||| conclusion == "ACTION_REQUIRED"@
}

/// The failing conclusions are exactly those listed.
pub proof fn the_failing_conclusions_are_those_listed(conclusion: Seq<char>)
    ensures
        is_failure(conclusion) <==> exists|i: int|
            0 <= i < 5 && (#[trigger] FAIL_CONCLUSIONS[i])@ == conclusion,
{
    if is_failure(conclusion) {
        let i: int = if conclusion == "FAILURE"@ {
            0
        } else if conclusion == "STARTUP_FAILURE"@ {
            1
        } else if conclusion == "CANCELLED"@ {
            2
        } else if conclusion == "TIMED_OUT"@ {
            3
        } else {
            4
        };
        assert(FAIL_CONCLUSIONS[i]@ == conclusion);
    }
}

/// Whether a suite produced at least one check run. A suite without any is a
/// phantom subscription, and so is one whose runs the viewer cannot see.
pub open spec fn suite_ran(s: CheckSuite) -> bool {
    s.check_runs matches Some(r) && r.total_count > 0
}

/// Whether a suite failed: it ran and concluded in a failure, or it failed
/// before it could run anything at all.
pub open spec fn suite_fails(s: CheckSuite) -> bool {
    opt_view(s.conclusion) matches Some(c) && is_failure(c) && (suite_ran(s) || c
        == "STARTUP_FAILURE"@)
}

/// How many suites failed.
pub open spec fn failures(suites: Seq<CheckSuite>) -> nat
    decreases suites.len(),
{
    if suites.len() == 0 {
        0
    } else {
        failures(suites.drop_last()) + if suite_fails(suites.last()) {
            1nat
        } else {
            0nat
        }
    }
}

/// Some suite failed.
pub open spec fn any_fails(suites: Seq<CheckSuite>) -> bool {
    exists|i: int| 0 <= i < suites.len() && suite_fails(#[trigger] suites[i])
}

/// Some suite ran.
pub open spec fn any_ran(suites: Seq<CheckSuite>) -> bool {
    exists|i: int| 0 <= i < suites.len() && suite_ran(#[trigger] suites[i])
}

/// Some suite ran and has not concluded.
pub open spec fn any_unconcluded(suites: Seq<CheckSuite>) -> bool {
    exists|i: int|
        0 <= i < suites.len() && suite_ran(#[trigger] suites[i]) && suites[i].conclusion is None
}

/// The status by precedence: merged, conflicts, failing, pending, passing, none.
pub open spec fn status_of(
    state: Option<Seq<char>>,
    mergeable: Option<Seq<char>>,
    suites: Seq<CheckSuite>,
) -> Option<Status> {
    if state == Some("MERGED"@) {
        Some(Status::Merged)
    } else if mergeable == Some("CONFLICTING"@) {
        Some(Status::Conflicts)
    } else if any_fails(suites) {
        Some(Status::Fail)
    } else if any_unconcluded(suites) {
        Some(Status::Pending)
    } else if any_ran(suites) {
        Some(Status::Pass)
    } else {
        None
    }
}

fn ran(s: &CheckSuite) -> (r: bool)
    ensures
        r == suite_ran(*s),
{
    match &s.check_runs {
        Some(r) => r.total_count > 0,
        None => false,
    }
}

fn fails(s: &CheckSuite) -> (r: bool)
    ensures
        r == suite_fails(*s),
{
    match &s.conclusion {
        Some(c) => {
            let c = c.as_str();
            let terminal = same(c, "STARTUP_FAILURE");
            (terminal || same(c, "FAILURE") || same(c, "CANCELLED") || same(c, "TIMED_OUT") || same(
                c,
                "ACTION_REQUIRED",
            )) && (ran(s) || terminal)
        },
        None => false,
    }
}

proof fn failures_are_some(suites: Seq<CheckSuite>)
    ensures
        failures(suites) > 0 <==> any_fails(suites),
        failures(suites) <= suites.len(),
    decreases suites.len(),
{
    if suites.len() > 0 {
        let t = suites.drop_last();
        failures_are_some(t);
        if any_fails(t) {
            let i = choose|i: int| 0 <= i < t.len() && suite_fails(#[trigger] t[i]);
            assert(suite_fails(suites[i]));
        }
        if any_fails(suites) && !suite_fails(suites.last()) {
            let i = choose|i: int| 0 <= i < suites.len() && suite_fails(#[trigger] suites[i]);
            assert(suite_fails(t[i]));
        }
        if suite_fails(suites.last()) {
            assert(suite_fails(suites[suites.len() - 1]));
        }
    }
}

/// How many check suites concluded in a failing state.
pub fn fail_count(suites: &[CheckSuite]) -> (r: usize)
    ensures
        r == failures(suites@),
{
    let mut n: usize = 0;
    let mut i: usize = 0;
    proof {
        assert(suites@.take(0) =~= Seq::<CheckSuite>::empty());
    }
    while i < suites.len()
        invariant
            i <= suites@.len(),
            n == failures(suites@.take(i as int)),
            n <= i,
        decreases suites@.len() - i,
    {
        proof {
            assert(suites@.take(i + 1).drop_last() =~= suites@.take(i as int));
        }
        if fails(&suites[i]) {
            n += 1;
        }
        i += 1;
    }
    proof {
        assert(suites@.take(i as int) =~= suites@);
    }
    n
}

/// Derive a status from a pull request's state, its mergeability and the check
/// suites of its last commit.
pub fn derive_status(
    state: Option<&str>,
    mergeable: Option<&str>,
    suites: &[CheckSuite],
) -> (r: Option<Status>)
    ensures
        r == status_of(opt_str_view(state), opt_str_view(mergeable), suites@),
{
    if let Some(s) = state {
        if same(s, "MERGED") {
            return Some(Status::Merged);
        }
    }
    if let Some(m) = mergeable {
        if same(m, "CONFLICTING") {
            return Some(Status::Conflicts);
        }
    }
    proof {
        failures_are_some(suites@);
    }
    if fail_count(suites) > 0 {
        return Some(Status::Fail);
    }
    let mut some_ran = false;
    let mut i: usize = 0;
    while i < suites.len()
        invariant
            i <= suites@.len(),
            some_ran == exists|k: int| 0 <= k < i && suite_ran(#[trigger] suites@[k]),
            forall|k: int|
                0 <= k < i && suite_ran(#[trigger] suites@[k]) ==> suites@[k].conclusion is Some,
            !any_fails(suites@),
            opt_str_view(state) != Some("MERGED"@),
            opt_str_view(mergeable) != Some("CONFLICTING"@),
        decreases suites@.len() - i,
    {
        if ran(&suites[i]) {
            assert(suite_ran(suites@[i as int]));
            if suites[i].conclusion.is_none() {
                return Some(Status::Pending);
            }
            some_ran = true;
        }
        i += 1;
    }
    if some_ran {
        Some(Status::Pass)
    } else {
        None
    }
}

/// The check suites of a pull request's last commit, with the server's total.
pub open spec fn suites_of(pr: PrNode) -> Option<CheckSuites> {
    if pr.commits.nodes@.len() > 0 {
        Some(pr.commits.nodes@[0].commit.check_suites)
    } else {
        None
    }
}

/// The check suites of a pull request's last commit; none when it has none.
pub open spec fn suite_nodes(pr: PrNode) -> Seq<CheckSuite> {
    match suites_of(pr) {
        Some(s) => s.nodes@,
        None => Seq::empty(),
    }
}

/// The status of a pull request. Only the first page of check suites is at
/// hand: when the server has more, a pass is unproven and reads as pending.
pub open spec fn status_of_pr(pr: PrNode) -> Option<Status> {
    let s = status_of(opt_view(pr.state), opt_view(pr.mergeable), suite_nodes(pr));
    if s == Some(Status::Pass) && (suites_of(pr) matches Some(c) && c.total_count > c.nodes@.len()) {
        Some(Status::Pending)
    } else {
        s
    }
}

/// The check suites of a pull request's last commit, empty if there are none.
pub fn last_suites(pr: &PrNode) -> (r: &[CheckSuite])
    ensures
        r@ == suite_nodes(*pr),
{
    match last_check_suites(pr) {
        Some(s) => s.nodes.as_slice(),
        None => {
            let none: &[CheckSuite] = &[];
            assert(none@ =~= Seq::<CheckSuite>::empty());
            none
        },
    }
}

fn last_check_suites(pr: &PrNode) -> (r: Option<&CheckSuites>)
    ensures
        r is Some <==> suites_of(*pr) is Some,
        r matches Some(s) ==> suites_of(*pr) == Some(*s),
{
    if pr.commits.nodes.len() > 0 {
        Some(&pr.commits.nodes[0].commit.check_suites)
    } else {
        None
    }
}

/// Derive a pull request's status from its fields.
pub fn pr_status(pr: &PrNode) -> (r: Option<Status>)
    ensures
        r == status_of_pr(*pr),
{
    let state = match &pr.state {
        Some(s) => Some(s.as_str()),
        None => None,
    };
    let mergeable = match &pr.mergeable {
        Some(s) => Some(s.as_str()),
        None => None,
    };
    let status = derive_status(state, mergeable, last_suites(pr));
    if let Some(Status::Pass) = status {
        if let Some(s) = last_check_suites(pr) {
            if s.total_count > s.nodes.len() as u64 {
                return Some(Status::Pending);
            }
        }
    }
    status
}

/// A pull request reads as passing only when the page of suites is complete,
/// every suite that ran has concluded, and none of the suites failed.
pub proof fn a_pass_is_proven(pr: PrNode)
    requires
        status_of_pr(pr) == Some(Status::Pass),
    ensures
        suites_of(pr) matches Some(c) && c.total_count <= c.nodes@.len(),
        any_ran(suite_nodes(pr)),
        forall|i: int|
            0 <= i < suite_nodes(pr).len() && suite_ran(#[trigger] suite_nodes(pr)[i]) ==> (
            opt_view(suite_nodes(pr)[i].conclusion) matches Some(c) && !is_failure(c)),
        failures(suite_nodes(pr)) == 0,
{
    failures_are_some(suite_nodes(pr));
    let n = suite_nodes(pr);
    assert forall|i: int| 0 <= i < n.len() && suite_ran(#[trigger] n[i]) implies (opt_view(
        n[i].conclusion,
    ) matches Some(c) && !is_failure(c)) by {
        if n[i].conclusion is None {
            assert(any_unconcluded(n));
        }
    }
}

/// Suites that never ran, and did not fail to start, have no say: a pull
/// request with only such suites has the status of one without suites.
pub proof fn phantom_suites_have_no_say(
    state: Option<Seq<char>>,
    mergeable: Option<Seq<char>>,
    suites: Seq<CheckSuite>,
)
    requires
        forall|i: int|
            0 <= i < suites.len() ==> !suite_ran(#[trigger] suites[i]) && opt_view(
                suites[i].conclusion,
            ) != Some("STARTUP_FAILURE"@),
    ensures
        status_of(state, mergeable, suites) == status_of(state, mergeable, Seq::empty()),
        failures(suites) == 0,
{
    failures_are_some(suites);
    assert(!any_fails(Seq::<CheckSuite>::empty()));
}

/// Merged and conflicting come before anything that the checks say, whatever the
/// suites are: a merged pull request reads as merged, and of the others exactly
/// those that conflict read as conflicting.
pub proof fn conflicts_win_over_checks(
    state: Option<Seq<char>>,
    mergeable: Option<Seq<char>>,
    suites: Seq<CheckSuite>,
)
    ensures
        status_of(state, mergeable, suites) == Some(Status::Merged) <==> state == Some("MERGED"@),
        status_of(state, mergeable, suites) == Some(Status::Conflicts) <==> state != Some("MERGED"@)
            && mergeable == Some("CONFLICTING"@),
        (status_of(state, mergeable, suites) matches Some(s) && (s == Status::Pass || s
            == Status::Pending || s == Status::Fail)) ==> state != Some("MERGED"@) && mergeable
            != Some("CONFLICTING"@),
{
}

/// The checks decide the status of a pull request that is neither merged nor in
/// conflict, and nothing else does. A failing suite that ran, or one that failed
/// to start, makes it fail. Without one, a suite that ran and has not concluded
/// makes it pending. Without either, a suite that ran makes it pass, and with no
/// suite that ran there is no status.
pub proof fn checks_decide_the_rest(
    state: Option<Seq<char>>,
    mergeable: Option<Seq<char>>,
    suites: Seq<CheckSuite>,
)
    requires
        state != Some("MERGED"@),
        mergeable != Some("CONFLICTING"@),
    ensures
        ({
            let r = status_of(state, mergeable, suites);
            let failing = exists|i: int|
                0 <= i < suites.len() && ((#[trigger] suites[i]).conclusion matches Some(c) && (c@
                    == "STARTUP_FAILURE"@ || ((c@ == "FAILURE"@ || c@ == "CANCELLED"@ || c@
                    == "TIMED_OUT"@ || c@ == "ACTION_REQUIRED"@) && (
                suites[i].check_runs matches Some(runs) && runs.total_count > 0))));
            let running = exists|i: int|
                0 <= i < suites.len() && (#[trigger] suites[i]).conclusion is None && (
                suites[i].check_runs matches Some(runs) && runs.total_count > 0);
            let ran = exists|i: int|
                0 <= i < suites.len() && ((#[trigger] suites[i]).check_runs matches Some(runs)
                    && runs.total_count > 0);
            &&& r == Some(Status::Fail) <==> failing
            &&& r == Some(Status::Pending) <==> !failing && running
            &&& r == Some(Status::Pass) <==> !failing && !running && ran
            &&& r is None <==> !failing && !ran
        }),
{
    if any_fails(suites) {
        let i = choose|i: int| 0 <= i < suites.len() && suite_fails(#[trigger] suites[i]);
        assert(suites[i].conclusion is Some);
    }
    if any_unconcluded(suites) {
        let i = choose|i: int|
            0 <= i < suites.len() && suite_ran(#[trigger] suites[i]) && suites[i].conclusion
                is None;
        assert(suites[i].conclusion is None);
    }
    if any_ran(suites) {
        let i = choose|i: int| 0 <= i < suites.len() && suite_ran(#[trigger] suites[i]);
        assert(suites[i].check_runs is Some);
    }
    assert forall|i: int| 0 <= i < suites.len() implies (suite_fails(#[trigger] suites[i]) ==>
        any_fails(suites)) && (suite_ran(suites[i]) ==> any_ran(suites)) && (suite_ran(suites[i])
        && suites[i].conclusion is None ==> any_unconcluded(suites)) by {}
}

/// The count of failing suites goes suite by suite: two lists have the failures of
/// both, and one suite counts exactly if it concluded in a failure and ran, or
/// failed to start.
pub proof fn failures_add_up(a: Seq<CheckSuite>, b: Seq<CheckSuite>, s: CheckSuite)
    ensures
        failures(a + b) == failures(a) + failures(b),
        failures(seq![s]) == if s.conclusion matches Some(c) && (c@ == "STARTUP_FAILURE"@ || ((
        c@ == "FAILURE"@ || c@ == "CANCELLED"@ || c@ == "TIMED_OUT"@ || c@ == "ACTION_REQUIRED"@)
            && (s.check_runs matches Some(runs) && runs.total_count > 0))) {
            1nat
        } else {
            0
        },
    decreases b.len(),
{
    assert(seq![s].drop_last() =~= Seq::<CheckSuite>::empty());
    reveal_with_fuel(failures, 2);
    if b.len() == 0 {
        assert(a + b =~= a);
    } else {
        assert((a + b).drop_last() =~= a + b.drop_last());
        failures_add_up(a, b.drop_last(), s);
    }
}

/// A pull request's own fields decide its status: its state and mergeability, and
/// the suites of the first commit node alone. Where the server has more suites
/// than the page holds, what would pass is pending, and nothing else is different.
pub proof fn a_row_has_the_status_of_its_fields(pr: PrNode)
    ensures
        status_of_pr(pr) == Some(Status::Merged) <==> opt_view(pr.state) == Some("MERGED"@),
        status_of_pr(pr) == Some(Status::Conflicts) <==> opt_view(pr.state) != Some("MERGED"@)
            && opt_view(pr.mergeable) == Some("CONFLICTING"@),
        pr.commits.nodes@.len() == 0 ==> status_of_pr(pr) == status_of(
            opt_view(pr.state),
            opt_view(pr.mergeable),
            Seq::empty(),
        ),
        pr.commits.nodes@.len() > 0 ==> ({
            let page = pr.commits.nodes@[0].commit.check_suites;
            let seen = status_of(opt_view(pr.state), opt_view(pr.mergeable), page.nodes@);
            status_of_pr(pr) == if seen == Some(Status::Pass) && page.nodes@.len()
                < page.total_count {
                Some(Status::Pending)
            } else {
                seen
            }
        }),
{
}

/// What deriving a status gives: merged and conflicting by the state and the
/// mergeability alone, and the rest only where neither holds.
pub proof fn a_derived_status_puts_conflicts_first(
    state: Option<&str>,
    mergeable: Option<&str>,
    suites: &[CheckSuite],
    r: Option<Status>,
)
    requires
        call_ensures(derive_status, (state, mergeable, suites), r),
    ensures
        r == Some(Status::Merged) <==> (state matches Some(s) && s@ == "MERGED"@),
        r == Some(Status::Conflicts) <==> !(state matches Some(s) && s@ == "MERGED"@) && (
        mergeable matches Some(m) && m@ == "CONFLICTING"@),
{
    conflicts_win_over_checks(opt_str_view(state), opt_str_view(mergeable), suites@);
}

/// What deriving a status gives where the pull request is neither merged nor in
/// conflict: failing, pending, passing or nothing, by its suites.
pub proof fn a_derived_status_goes_by_the_checks(
    state: Option<&str>,
    mergeable: Option<&str>,
    suites: &[CheckSuite],
    r: Option<Status>,
)
    requires
        call_ensures(derive_status, (state, mergeable, suites), r),
        !(state matches Some(s) && s@ == "MERGED"@),
        !(mergeable matches Some(m) && m@ == "CONFLICTING"@),
    ensures
        ({
            let failing = exists|i: int|
                0 <= i < suites@.len() && ((#[trigger] suites@[i]).conclusion matches Some(c) && (c@
                    == "STARTUP_FAILURE"@ || ((c@ == "FAILURE"@ || c@ == "CANCELLED"@ || c@
                    == "TIMED_OUT"@ || c@ == "ACTION_REQUIRED"@) && (
                suites@[i].check_runs matches Some(runs) && runs.total_count > 0))));
            let running = exists|i: int|
                0 <= i < suites@.len() && (#[trigger] suites@[i]).conclusion is None && (
                suites@[i].check_runs matches Some(runs) && runs.total_count > 0);
            let ran = exists|i: int|
                0 <= i < suites@.len() && ((#[trigger] suites@[i]).check_runs matches Some(runs)
                    && runs.total_count > 0);
            &&& r == Some(Status::Fail) <==> failing
            &&& r == Some(Status::Pending) <==> !failing && running
            &&& r == Some(Status::Pass) <==> !failing && !running && ran
            &&& r is None <==> !failing && !ran
        }),
{
    checks_decide_the_rest(opt_str_view(state), opt_str_view(mergeable), suites@);
}

/// The status of a pull request is that of its fields, but for a pass of which the
/// page of suites does not hold the proof.
pub proof fn a_pull_request_has_a_derived_status(
    pr: &PrNode,
    r: Option<Status>,
)
    requires
        call_ensures(pr_status, (pr,), r),
    ensures
        r == Some(Status::Merged) <==> (pr.state matches Some(s) && s@ == "MERGED"@),
        r == Some(Status::Conflicts) <==> !(pr.state matches Some(s) && s@ == "MERGED"@) && (
        pr.mergeable matches Some(m) && m@ == "CONFLICTING"@),
        r == Some(Status::Pass) ==> pr.commits.nodes@.len() > 0 && ({
            let page = pr.commits.nodes@[0].commit.check_suites;
            page.total_count <= page.nodes@.len() && forall|i: int|
                0 <= i < page.nodes@.len() ==> ((#[trigger] page.nodes@[i]).check_runs matches Some(
                    runs,
                ) && runs.total_count > 0) ==> page.nodes@[i].conclusion is Some
        }),
{
    a_row_has_the_status_of_its_fields(*pr);
    if r == Some(Status::Pass) {
        a_pass_is_proven(*pr);
        let page = pr.commits.nodes@[0].commit.check_suites;
        assert(suite_nodes(*pr) == page.nodes@);
        assert forall|i: int| 0 <= i < page.nodes@.len() implies ((
        #[trigger] page.nodes@[i]).check_runs matches Some(runs) && runs.total_count > 0)
            ==> page.nodes@[i].conclusion is Some by {
            if suite_ran(page.nodes@[i]) {
                assert(suite_ran(suite_nodes(*pr)[i]));
            }
        }
    }
}

/// Counting failures counts each suite that failed once: the counts of two lists
/// add up to that of the two together.
pub proof fn counted_failures_add_up(
    a: &[CheckSuite],
    b: &[CheckSuite],
    both: &[CheckSuite],
    m: usize,
    n: usize,
    r: usize,
)
    requires
        both@ == a@ + b@,
        call_ensures(fail_count, (a,), m),
        call_ensures(fail_count, (b,), n),
        call_ensures(fail_count, (both,), r),
    ensures
        r == m + n,
        a@.len() == 1 ==> (m == 1 <==> ({
            let s = a@[0];
            s.conclusion matches Some(c) && (c@ == "STARTUP_FAILURE"@ || ((c@ == "FAILURE"@ || c@
                == "CANCELLED"@ || c@ == "TIMED_OUT"@ || c@ == "ACTION_REQUIRED"@) && (
            s.check_runs matches Some(runs) && runs.total_count > 0)))
        })),
        a@.len() == 0 ==> m == 0,
{
    if a@.len() == 1 {
        failures_add_up(a@, b@, a@[0]);
        assert(a@ =~= seq![a@[0]]);
    } else if b@.len() > 0 {
        failures_add_up(a@, b@, b@[0]);
    } else {
        assert(a@ + b@ =~= a@);
    }
}

/// The colour of a status says how the pull request stands: green is a pass and
/// nothing else, red a failure, yellow pending, peach a conflict and mauve merged.
pub proof fn a_colour_says_the_status(s: Status)
    ensures
        palette(s).1 == GREEN <==> s == Status::Pass,
        palette(s).1 == RED <==> s == Status::Fail,
        palette(s).1 == YELLOW <==> s == Status::Pending,
        palette(s).1 == PEACH <==> s == Status::Conflicts,
        palette(s).1 == MAUVE <==> s == Status::Merged,
        sign(s, true) == letter(s),
        sign(s, false) == palette(s).0,
{
}

/// The legend explains every status once, every merge state once, and every review
/// state has a sign of its own.
pub proof fn the_legend_is_complete(s: Status, a: ReviewState, b: ReviewState, ascii: bool)
    ensures
        exists|i: int| 0 <= i < 5 && #[trigger] ORDER[i] == s,
        forall|i: int, j: int| 0 <= i < j < 5 ==> #[trigger] ORDER[i] != #[trigger] ORDER[j],
        review_sign(a, ascii) == review_sign(b, ascii) <==> a == b,
        review_palette(a).1 == review_palette(b).1 <==> a == b,
{
    let i: int = match s {
        Status::Pass => 0,
        Status::Fail => 1,
        Status::Pending => 2,
        Status::Conflicts => 3,
        Status::Merged => 4,
    };
    assert(ORDER[i] == s);
}

/// A merge state is green exactly if the pull request can merge, and red exactly
/// if it cannot: when it conflicts or is a draft. Only a conflict reads as one.
pub proof fn a_merge_state_says_whether_it_can_merge(state: Seq<char>)
    ensures
        style_of_state(state).fg == Some(GREEN) <==> state == "CLEAN"@ || state == "HAS_HOOKS"@,
        style_of_state(state).fg == Some(RED) <==> state == "DIRTY"@ || state == "DRAFT"@,
        style_of_state(state).fg == Some(YELLOW) <==> state == "UNSTABLE"@ || state == "BLOCKED"@
            || state == "BEHIND"@,
        state != "DIRTY"@ ==> label_of_state(state) == state,
        label_of_state("DIRTY"@) == "CONFLICTS"@,
{
    reveal_strlit("CLEAN");
    reveal_strlit("HAS_HOOKS");
    reveal_strlit("UNSTABLE");
    reveal_strlit("BLOCKED");
    reveal_strlit("BEHIND");
    reveal_strlit("DIRTY");
    reveal_strlit("DRAFT");
    assert("CLEAN"@.len() == 5 && "DIRTY"@.len() == 5 && "DRAFT"@.len() == 5 && "HAS_HOOKS"@.len()
        == 9 && "UNSTABLE"@.len() == 8 && "BLOCKED"@.len() == 7 && "BEHIND"@.len() == 6);
    assert("CLEAN"@[0] == 'C' && "DIRTY"@[1] == 'I' && "DRAFT"@[1] == 'R');
}

} // verus!
