//! The command line: its options, and durations such as `30s` or `2w`.

use crate::text::{
    chars_of, number, parse_number, same, string_of, trim, trimmed_from, trimmed_to,
};
use std::str::FromStr;
use vstd::prelude::*;

verus! {

/// The options of a run.
#[derive(Clone, Debug)]
pub struct Cli {
    /// Repository to watch, as owner/name; the one of the working directory if
    /// omitted.
    pub repo: Option<String>,
    /// The view to start in.
    pub view: Pane,
    /// Refresh interval.
    pub interval: Dur,
    /// Render once and exit.
    pub once: bool,
    /// Never ring the terminal bell.
    pub no_bell: bool,
    /// Use ASCII letters instead of glyphs.
    pub ascii: bool,
    /// Sections to show; all of them if omitted.
    pub only: Option<Vec<Section>>,
    /// How far back recently merged reaches.
    pub merged_window: Dur,
    /// How many recently merged pull requests to list.
    pub merged_limit: usize,
    /// Hide the legend.
    pub no_reference: bool,
    /// Authorize in the browser and store the token.
    pub login: bool,
    /// Neither read nor write the cache.
    pub no_cache: bool,
    /// Hide drafts.
    pub no_draft: bool,
    /// Count pre-releases among the releases.
    pub include_pre_releases: bool,
    /// Whose review requests to show.
    pub review_scope: ReviewScope,
}

/// The dashboard sections.
#[derive(Clone, Copy, Debug, PartialEq, Eq, Structural)]
pub enum Section {
    Queue,
    Mine,
    Merged,
    Shipments,
}

/// The two views of the dashboard.
#[derive(Clone, Copy, Debug, PartialEq, Eq, Structural)]
pub enum Pane {
    /// My pull requests, the merge queue and my shipments.
    Mine,
    /// The pull requests that I review.
    Reviews,
}

/// Whose review requests the reviews view shows.
#[derive(Clone, Copy, Debug, PartialEq, Eq, Structural)]
pub enum ReviewScope {
    /// Requests to me and to my teams.
    All,
    /// Requests to me alone.
    Direct,
}

impl Pane {
    /// The other view.
    pub fn toggle(self) -> (r: Pane)
        ensures
            r != self,
    {
        match self {
            Pane::Mine => Pane::Reviews,
            Pane::Reviews => Pane::Mine,
        }
    }
}

impl ReviewScope {
    /// The search qualifier of the scope.
    pub fn qualifier(self) -> (r: &'static str)
        ensures
            r@ == match self {
                ReviewScope::All => "review-requested"@,
                ReviewScope::Direct => "user-review-requested"@,
            },
    {
        match self {
            ReviewScope::All => "review-requested",
            ReviewScope::Direct => "user-review-requested",
        }
    }
}

impl Cli {
    /// Whether a section is to be shown.
    pub open spec fn wants(self, s: Section) -> bool {
        match self.only {
            None => true,
            Some(list) => list@.contains(s),
        }
    }

    /// Whether a section is to be shown.
    pub fn shows(&self, s: Section) -> (r: bool)
        ensures
            r == self.wants(s),
    {
        match &self.only {
            None => true,
            Some(list) => {
                let mut i: usize = 0;
                while i < list.len()
                    invariant
                        i <= list@.len(),
                        self.only == Some(*list),
                        forall|k: int| 0 <= k < i ==> list@[k] != s,
                    decreases list@.len() - i,
                {
                    if list[i] == s {
                        assert(list@[i as int] == s);
                        return true;
                    }
                    i += 1;
                }
                false
            },
        }
    }

    pub fn show_queue(&self) -> (r: bool)
        ensures
            r == self.wants(Section::Queue),
    {
        self.shows(Section::Queue)
    }

    pub fn show_mine(&self) -> (r: bool)
        ensures
            r == self.wants(Section::Mine),
    {
        self.shows(Section::Mine)
    }

    pub fn show_merged(&self) -> (r: bool)
        ensures
            r == self.wants(Section::Merged),
    {
        self.shows(Section::Merged)
    }

    pub fn show_shipments(&self) -> (r: bool)
        ensures
            r == self.wants(Section::Shipments),
    {
        self.shows(Section::Shipments)
    }
}

/// A duration that remembers the text it was read from, so that the text can be
/// echoed instead of a normalized form.
#[derive(Clone, Debug)]
pub struct Dur {
    /// How long, in seconds.
    pub secs: u64,
    pub raw: String,
}

/// Why a text is no duration.
#[derive(Clone, Debug, PartialEq, Eq)]
pub enum DurationError {
    /// There is nothing in it.
    Empty,
    /// The number cannot be read, or is too large. Holds the text.
    Number(String),
    /// There is no such unit. Holds the unit.
    Unit(String),
}

/// What a duration error says.
pub enum DurationFault {
    Empty,
    Number(Seq<char>),
    Unit(Seq<char>),
}

impl DurationError {
    pub open spec fn fault(self) -> DurationFault {
        match self {
            DurationError::Empty => DurationFault::Empty,
            DurationError::Number(s) => DurationFault::Number(s@),
            DurationError::Unit(s) => DurationFault::Unit(s@),
        }
    }

    /// The message for the user.
    pub fn message(&self) -> (r: String)
        ensures
            r@ == fault_message(self.fault()),
    {
        match self {
            DurationError::Empty => "empty duration".to_string(),
            DurationError::Number(s) => {
                let mut m = "invalid duration `".to_string();
                m.append(s.as_str());
                m.append("`");
                m
            },
            DurationError::Unit(s) => {
                let mut m = "invalid duration unit `".to_string();
                m.append(s.as_str());
                m.append("` (use s/m/h/d/w)");
                m
            },
        }
    }
}

/// The message for each fault.
pub open spec fn fault_message(f: DurationFault) -> Seq<char> {
    match f {
        DurationFault::Empty => "empty duration"@,
        DurationFault::Number(s) => "invalid duration `"@ + s + "`"@,
        DurationFault::Unit(s) => "invalid duration unit `"@ + s + "` (use s/m/h/d/w)"@,
    }
}

/// Whether a character is an ASCII letter.
pub open spec fn is_letter(c: char) -> bool {
    ('a' <= c <= 'z') || ('A' <= c <= 'Z')
}

/// Where the first ASCII letter stands, or the length when there is none.
pub open spec fn first_letter(s: Seq<char>) -> nat
    decreases s.len(),
{
    if s.len() == 0 || is_letter(s[0]) {
        0
    } else {
        1 + first_letter(s.drop_first())
    }
}

/// The seconds in a unit, if it is one.
pub open spec fn unit_secs(unit: Seq<char>) -> Option<nat> {
    if unit == ""@ || unit == "s"@ || unit == "sec"@ || unit == "secs"@ {
        Some(1)
    } else if unit == "m"@ || unit == "min"@ || unit == "mins"@ {
        Some(60)
    } else if unit == "h"@ || unit == "hr"@ || unit == "hrs"@ {
        Some(3600)
    } else if unit == "d"@ || unit == "day"@ || unit == "days"@ {
        Some(86_400)
    } else if unit == "w"@ || unit == "wk"@ || unit == "wks"@ {
        Some(604_800)
    } else {
        None
    }
}

/// The seconds that a text without surrounding white space stands for.
pub open spec fn seconds_of(s: Seq<char>) -> Result<nat, DurationFault> {
    let split = first_letter(s) as int;
    let unit = s.skip(split);
    if s.len() == 0 {
        Err(DurationFault::Empty)
    } else {
        match number(s.take(split), u64::MAX as nat) {
            None => Err(DurationFault::Number(s)),
            Some(n) => match unit_secs(unit) {
                None => Err(DurationFault::Unit(unit)),
                Some(k) => if n * k > u64::MAX {
                    Err(DurationFault::Number(s))
                } else {
                    Ok(n * k)
                },
            },
        }
    }
}

/// The outcome of reading a duration, as plain values.
pub open spec fn outcome(r: Result<u64, DurationError>) -> Result<nat, DurationFault> {
    match r {
        Ok(n) => Ok(n as nat),
        Err(e) => Err(e.fault()),
    }
}

fn unit_of(unit: &str) -> (r: Option<u64>)
    ensures
        match r {
            Some(k) => unit_secs(unit@) == Some(k as nat) && 0 < k <= 604_800,
            None => unit_secs(unit@) is None,
        },
{
    if same(unit, "") || same(unit, "s") || same(unit, "sec") || same(unit, "secs") {
        Some(1)
    } else if same(unit, "m") || same(unit, "min") || same(unit, "mins") {
        Some(60)
    } else if same(unit, "h") || same(unit, "hr") || same(unit, "hrs") {
        Some(3600)
    } else if same(unit, "d") || same(unit, "day") || same(unit, "days") {
        Some(86_400)
    } else if same(unit, "w") || same(unit, "wk") || same(unit, "wks") {
        Some(604_800)
    } else {
        None
    }
}

/// Parse a compact duration such as `30s`, `10m`, `2h`, `7d` or `2w` to seconds.
/// A bare number is seconds.
pub fn parse_duration(s: &str) -> (r: Result<u64, DurationError>)
    ensures
        outcome(r) == seconds_of(trim(s@)),
{
    let cs = chars_of(s);
    let from = trimmed_from(&cs);
    let to = trimmed_to(&cs, from);
    let ghost t = trim(s@);
    assert(t == cs@.subrange(from as int, to as int));
    if from == to {
        return Err(DurationError::Empty);
    }
    let mut split: usize = from;
    proof {
        assert(t.skip(0) =~= t);
    }
    while split < to && !(('a' <= cs[split] && cs[split] <= 'z') || ('A' <= cs[split] && cs[split]
        <= 'Z'))
        invariant
            from <= split <= to <= cs@.len(),
            t == cs@.subrange(from as int, to as int),
            first_letter(t) == split - from + first_letter(t.skip(split - from)),
        decreases to - split,
    {
        proof {
            assert(t.skip(split - from)[0] == cs@[split as int]);
            assert(t.skip(split - from).drop_first() =~= t.skip(split + 1 - from));
        }
        split += 1;
    }
    proof {
        if split < to {
            assert(t.skip(split - from)[0] == cs@[split as int]);
        }
        assert(first_letter(t) == split - from);
        assert(t.take(split - from) =~= cs@.subrange(from as int, split as int));
        assert(t.skip(split - from) =~= cs@.subrange(split as int, to as int));
    }
    let n = match parse_number(&cs, from, split, u64::MAX) {
        Some(n) => n,
        None => {
            return Err(DurationError::Number(string_of(&cs, from, to)));
        },
    };
    let unit = string_of(&cs, split, to);
    match unit_of(unit.as_str()) {
        None => Err(DurationError::Unit(unit)),
        Some(k) => {
            proof {
                assert(n as nat * k as nat == n * k);
            }
            match n.checked_mul(k) {
                Some(secs) => Ok(secs),
                None => Err(DurationError::Number(string_of(&cs, from, to))),
            }
        },
    }
}

impl Dur {
    /// Read a duration, remembering its text without surrounding white space.
    pub fn parse(s: &str) -> (r: Result<Dur, DurationError>)
        ensures
            match r {
                Ok(d) => seconds_of(trim(s@)) == Ok::<nat, DurationFault>(d.secs as nat) && d.raw@
                    == trim(s@),
                Err(e) => seconds_of(trim(s@)) == Err::<nat, DurationFault>(e.fault()),
            },
    {
        match parse_duration(s) {
            Ok(secs) => Ok(Dur { secs, raw: crate::text::trimmed(s) }),
            Err(e) => Err(e),
        }
    }
}

impl FromStr for Dur {
    type Err = String;

    fn from_str(s: &str) -> (r: Result<Self, String>)
        ensures
            match r {
                Ok(d) => seconds_of(trim(s@)) == Ok::<nat, DurationFault>(d.secs as nat) && d.raw@
                    == trim(s@),
                Err(m) => seconds_of(trim(s@)) matches Err(f) && m@ == fault_message(f),
            },
    {
        match Dur::parse(s) {
            Ok(d) => Ok(d),
            Err(e) => Err(e.message()),
        }
    }
}

proof fn digits_are_no_letters(d: Seq<char>, unit: Seq<char>)
    requires
        forall|i: int| 0 <= i < d.len() ==> crate::text::is_digit(#[trigger] d[i]),
        unit.len() == 0 || is_letter(unit[0]),
    ensures
        first_letter(d + unit) == d.len(),
    decreases d.len(),
{
    let s = d + unit;
    if d.len() > 0 {
        let t = d.drop_first();
        assert(crate::text::is_digit(d[0]));
        assert(s[0] == d[0]);
        assert forall|i: int| 0 <= i < t.len() implies crate::text::is_digit(#[trigger] t[i]) by {
            assert(t[i] == d[i + 1]);
        }
        assert(s.drop_first() =~= t + unit);
        digits_are_no_letters(t, unit);
    } else {
        assert(s =~= unit);
    }
}

proof fn a_number_and_a_unit(n: nat, unit: Seq<char>)
    requires
        n <= u64::MAX,
        unit.len() == 0 || is_letter(unit[0]),
    ensures
        seconds_of(crate::text::dec(n) + unit) == match unit_secs(unit) {
            None => Err(DurationFault::Unit(unit)),
            Some(k) => if n * k > u64::MAX {
                Err(DurationFault::Number(crate::text::dec(n) + unit))
            } else {
                Ok::<nat, DurationFault>(n * k)
            },
        },
{
    let d = crate::text::dec(n);
    let s = d + unit;
    crate::text::written_in_digits(n);
    crate::text::number_reads_back_decimal(n, u64::MAX as nat);
    digits_are_no_letters(d, unit);
    assert(s.take(d.len() as int) =~= d);
    assert(s.skip(d.len() as int) =~= unit);
}

/// A duration is its number of its unit: seconds, minutes, hours, days or weeks,
/// and seconds without a unit. One that is too long for the machine is refused.
pub proof fn a_duration_is_a_number_of_units(n: nat)
    requires
        n <= u64::MAX,
    ensures
        ({
            let d = crate::text::dec(n);
            &&& seconds_of(d) == Ok::<nat, DurationFault>(n)
            &&& seconds_of(d + "s"@) == Ok::<nat, DurationFault>(n)
            &&& seconds_of(d + "m"@) is Ok <==> n * 60 <= u64::MAX
            &&& seconds_of(d + "h"@) is Ok <==> n * 3_600 <= u64::MAX
            &&& seconds_of(d + "d"@) is Ok <==> n * 86_400 <= u64::MAX
            &&& seconds_of(d + "w"@) is Ok <==> n * 604_800 <= u64::MAX
            &&& seconds_of(d + "m"@) matches Ok(k) ==> k == n * 60
            &&& seconds_of(d + "h"@) matches Ok(k) ==> k == n * 3_600
            &&& seconds_of(d + "d"@) matches Ok(k) ==> k == n * 86_400
            &&& seconds_of(d + "w"@) matches Ok(k) ==> k == n * 604_800
        }),
{
    let d = crate::text::dec(n);
    reveal_strlit("");
    reveal_strlit("s");
    reveal_strlit("sec");
    reveal_strlit("secs");
    reveal_strlit("m");
    reveal_strlit("min");
    reveal_strlit("mins");
    reveal_strlit("h");
    reveal_strlit("hr");
    reveal_strlit("hrs");
    reveal_strlit("d");
    reveal_strlit("day");
    reveal_strlit("days");
    reveal_strlit("w");
    a_number_and_a_unit(n, ""@);
    assert(d + ""@ =~= d);
    a_number_and_a_unit(n, "s"@);
    a_number_and_a_unit(n, "m"@);
    a_number_and_a_unit(n, "h"@);
    a_number_and_a_unit(n, "d"@);
    a_number_and_a_unit(n, "w"@);
    assert("m"@[0] == 'm' && "s"@[0] == 's' && "h"@[0] == 'h' && "d"@[0] == 'd' && "w"@[0] == 'w');
    assert("m"@ != ""@ && "h"@ != ""@ && "d"@ != ""@ && "w"@ != ""@);
}

/// What parsing gives of a duration that is written as a number and a unit.
pub proof fn parsing_counts_the_units(s: &str, n: nat, r: Result<u64, DurationError>)
    requires
        call_ensures(parse_duration, (s,), r),
        n <= u64::MAX / 604_800,
    ensures
        trim(s@) == crate::text::dec(n) ==> (r matches Ok(k) && k == n),
        trim(s@) == crate::text::dec(n) + "s"@ ==> (r matches Ok(k) && k == n),
        trim(s@) == crate::text::dec(n) + "m"@ ==> (r matches Ok(k) && k == n * 60),
        trim(s@) == crate::text::dec(n) + "h"@ ==> (r matches Ok(k) && k == n * 3_600),
        trim(s@) == crate::text::dec(n) + "d"@ ==> (r matches Ok(k) && k == n * 86_400),
        trim(s@) == crate::text::dec(n) + "w"@ ==> (r matches Ok(k) && k == n * 604_800),
{
    a_duration_is_a_number_of_units(n);
}

} // verus!
