//! Small text routines, each proved against a description on sequences of
//! characters: comparing, trimming, splitting, and reading and writing decimal
//! numbers.

use vstd::prelude::*;

verus! {

/// `String::push`: appends one character at the end.
pub assume_specification[ String::push ](s: &mut String, c: char)
    ensures
        final(s)@ == old(s)@.push(c),
;

/// `String::pop`: removes the last character and returns it, or returns `None`
/// and changes nothing when the string is empty.
pub assume_specification[ String::pop ](s: &mut String) -> (r: Option<char>)
    ensures
        old(s)@.len() == 0 ==> r is None && final(s)@ == old(s)@,
        old(s)@.len() > 0 ==> r == Some(old(s)@.last()) && final(s)@ == old(s)@.drop_last(),
;

/// The characters of `s`.
pub fn chars_of(s: &str) -> (r: Vec<char>)
    ensures
        r@ == s@,
{
    let mut out: Vec<char> = Vec::new();
    for c in it: s.chars()
        invariant
            out@ == s@.take(it.index() as int),
            it.seq() == s@,
    {
        out.push(c);
    }
    out
}

/// The characters of `cs` from `from` up to, but without, `to`, as a string.
pub fn string_of(cs: &Vec<char>, from: usize, to: usize) -> (r: String)
    requires
        from <= to <= cs@.len(),
    ensures
        r@ == cs@.subrange(from as int, to as int),
{
    let mut out = String::new();
    let mut i: usize = from;
    while i < to
        invariant
            from <= i <= to <= cs@.len(),
            out@ == cs@.subrange(from as int, i as int),
        decreases to - i,
    {
        out.push(cs[i]);
        proof {
            assert(cs@.subrange(from as int, i as int).push(cs@[i as int]) =~= cs@.subrange(
                from as int,
                i + 1,
            ));
        }
        i += 1;
    }
    out
}

/// Whether two strings hold the same characters.
pub fn same(a: &str, b: &str) -> (r: bool)
    ensures
        r == (a@ == b@),
{
    let x = chars_of(a);
    let y = chars_of(b);
    if x.len() != y.len() {
        return false;
    }
    let mut i: usize = 0;
    while i < x.len()
        invariant
            x@ == a@,
            y@ == b@,
            x.len() == y.len(),
            i <= x.len(),
            forall|k: int| 0 <= k < i ==> a@[k] == b@[k],
        decreases x.len() - i,
    {
        if x[i] != y[i] {
            return false;
        }
        i += 1;
    }
    assert(a@ =~= b@);
    true
}

/// The view of an optional string.
pub open spec fn opt_view(s: Option<String>) -> Option<Seq<char>> {
    match s {
        Some(t) => Some(t@),
        None => None,
    }
}

/// The view of an optional string slice.
pub open spec fn opt_str_view(s: Option<&str>) -> Option<Seq<char>> {
    match s {
        Some(t) => Some(t@),
        None => None,
    }
}

/// The views of a list of strings.
pub open spec fn views(v: Seq<String>) -> Seq<Seq<char>> {
    Seq::new(v.len(), |i: int| v[i]@)
}

/// A copy of an optional string.
pub fn copy_opt(s: &Option<String>) -> (r: Option<String>)
    ensures
        opt_view(r) == opt_view(*s),
{
    match s {
        Some(t) => Some(t.clone()),
        None => None,
    }
}

// ---------------------------------------------------------------------------
// Order
// ---------------------------------------------------------------------------

/// The outcome of comparing two values.
#[derive(Copy, Clone, Debug, PartialEq, Eq, Structural)]
pub enum Rank {
    Before,
    Equal,
    After,
}

impl Rank {
    /// The opposite outcome: what the comparison gives with its sides swapped.
    pub open spec fn flip(self) -> Rank {
        match self {
            Rank::Before => Rank::After,
            Rank::Equal => Rank::Equal,
            Rank::After => Rank::Before,
        }
    }

    /// This outcome, or `next` on a tie.
    pub open spec fn or(self, next: Rank) -> Rank {
        if self == Rank::Equal {
            next
        } else {
            self
        }
    }
}

/// How two integers compare.
pub open spec fn rank_int(a: int, b: int) -> Rank {
    if a < b {
        Rank::Before
    } else if a == b {
        Rank::Equal
    } else {
        Rank::After
    }
}

/// How two texts compare: lexically, character by character.
pub open spec fn rank_text(a: Seq<char>, b: Seq<char>) -> Rank
    decreases a.len(),
{
    if a.len() == 0 {
        if b.len() == 0 {
            Rank::Equal
        } else {
            Rank::Before
        }
    } else if b.len() == 0 {
        Rank::After
    } else if a[0] != b[0] {
        rank_int(a[0] as int, b[0] as int)
    } else {
        rank_text(a.drop_first(), b.drop_first())
    }
}

/// How two optional texts compare: an absent one comes before any present one.
pub open spec fn rank_opt(a: Option<Seq<char>>, b: Option<Seq<char>>) -> Rank {
    match (a, b) {
        (None, None) => Rank::Equal,
        (None, Some(_)) => Rank::Before,
        (Some(_), None) => Rank::After,
        (Some(x), Some(y)) => rank_text(x, y),
    }
}

/// Comparing texts is a total order: swapping the sides flips the outcome, only
/// equal texts tie, and the order is transitive.
pub proof fn rank_text_is_an_order(a: Seq<char>, b: Seq<char>, c: Seq<char>)
    ensures
        rank_text(b, a) == rank_text(a, b).flip(),
        rank_text(a, b) == Rank::Equal <==> a == b,
        rank_text(a, b) != Rank::After && rank_text(b, c) != Rank::After ==> rank_text(a, c)
            != Rank::After,
    decreases a.len(),
{
    if a.len() > 0 && b.len() > 0 {
        if c.len() > 0 {
            rank_text_is_an_order(a.drop_first(), b.drop_first(), c.drop_first());
        } else {
            rank_text_is_an_order(a.drop_first(), b.drop_first(), c);
        }
        if a[0] == b[0] && a.drop_first() == b.drop_first() {
            assert(a =~= seq![a[0]] + a.drop_first());
            assert(b =~= seq![b[0]] + b.drop_first());
        }
    } else if a.len() == 0 && b.len() == 0 {
        assert(a =~= b);
    }
}

/// The same of optional texts.
pub proof fn rank_opt_is_an_order(
    a: Option<Seq<char>>,
    b: Option<Seq<char>>,
    c: Option<Seq<char>>,
)
    ensures
        rank_opt(b, a) == rank_opt(a, b).flip(),
        rank_opt(a, b) == Rank::Equal <==> a == b,
        rank_opt(a, b) != Rank::After && rank_opt(b, c) != Rank::After ==> rank_opt(a, c)
            != Rank::After,
{
    let e = Seq::<char>::empty();
    let x = if let Some(s) = a {
        s
    } else {
        e
    };
    let y = if let Some(s) = b {
        s
    } else {
        e
    };
    let z = if let Some(s) = c {
        s
    } else {
        e
    };
    rank_text_is_an_order(x, y, z);
}

/// How two dated, numbered rows sort with the latest first, then the highest
/// number. Timestamps of the fixed form `...Z` sort as text as they do in time.
pub open spec fn rank_latest(
    at_a: Option<Seq<char>>,
    a: i64,
    at_b: Option<Seq<char>>,
    b: i64,
) -> Rank {
    rank_opt(at_b, at_a).or(rank_int(b as int, a as int))
}

/// `rank_latest` is a total preorder, and ties only rows with the same
/// timestamp and the same number.
pub proof fn rank_latest_is_an_order(
    at_a: Option<Seq<char>>,
    a: i64,
    at_b: Option<Seq<char>>,
    b: i64,
    at_c: Option<Seq<char>>,
    c: i64,
)
    ensures
        rank_latest(at_b, b, at_a, a) == rank_latest(at_a, a, at_b, b).flip(),
        rank_latest(at_a, a, at_b, b) == Rank::Equal <==> at_a == at_b && a == b,
        rank_latest(at_a, a, at_b, b) != Rank::After && rank_latest(at_b, b, at_c, c)
            != Rank::After ==> rank_latest(at_a, a, at_c, c) != Rank::After,
{
    rank_opt_is_an_order(at_a, at_b, at_c);
    rank_opt_is_an_order(at_c, at_b, at_a);
    rank_opt_is_an_order(at_c, at_a, at_b);
}

/// Compare two dated, numbered rows with the latest first.
pub fn compare_latest(at_a: &Option<String>, a: i64, at_b: &Option<String>, b: i64) -> (r: Rank)
    ensures
        r == rank_latest(opt_view(*at_a), a, opt_view(*at_b), b),
{
    match compare_opt(at_b, at_a) {
        Rank::Equal => compare_int(b, a),
        r => r,
    }
}

/// Compare two integers.
pub fn compare_int(a: i64, b: i64) -> (r: Rank)
    ensures
        r == rank_int(a as int, b as int),
{
    if a < b {
        Rank::Before
    } else if a == b {
        Rank::Equal
    } else {
        Rank::After
    }
}

/// Compare two texts.
pub fn compare_text(a: &str, b: &str) -> (r: Rank)
    ensures
        r == rank_text(a@, b@),
{
    let x = chars_of(a);
    let y = chars_of(b);
    let mut i: usize = 0;
    proof {
        assert(a@.skip(0) =~= a@);
        assert(b@.skip(0) =~= b@);
    }
    while i < x.len() && i < y.len()
        invariant
            x@ == a@,
            y@ == b@,
            i <= x.len(),
            i <= y.len(),
            rank_text(a@, b@) == rank_text(a@.skip(i as int), b@.skip(i as int)),
        decreases x.len() - i,
    {
        if x[i] < y[i] {
            return Rank::Before;
        }
        if x[i] > y[i] {
            return Rank::After;
        }
        proof {
            assert(a@.skip(i as int).drop_first() =~= a@.skip(i + 1));
            assert(b@.skip(i as int).drop_first() =~= b@.skip(i + 1));
        }
        i += 1;
    }
    if i < x.len() {
        Rank::After
    } else if i < y.len() {
        Rank::Before
    } else {
        Rank::Equal
    }
}

/// Compare two optional texts.
pub fn compare_opt(a: &Option<String>, b: &Option<String>) -> (r: Rank)
    ensures
        r == rank_opt(opt_view(*a), opt_view(*b)),
{
    match (a, b) {
        (None, None) => Rank::Equal,
        (None, Some(_)) => Rank::Before,
        (Some(_), None) => Rank::After,
        (Some(x), Some(y)) => compare_text(x.as_str(), y.as_str()),
    }
}


// ---------------------------------------------------------------------------
// Searching and splitting
// ---------------------------------------------------------------------------

/// Where `c` first occurs in `s`, or the length of `s` when it does not.
pub open spec fn find(s: Seq<char>, c: char) -> nat
    decreases s.len(),
{
    if s.len() == 0 || s[0] == c {
        0
    } else {
        1 + find(s.drop_first(), c)
    }
}

/// Where `c` last occurs in `s`, or -1 when it does not.
pub open spec fn rfind(s: Seq<char>, c: char) -> int
    decreases s.len(),
{
    if s.len() == 0 {
        -1
    } else if s.last() == c {
        s.len() - 1
    } else {
        rfind(s.drop_last(), c)
    }
}

/// `find` gives a position with `c` in it and none before it, or the length.
pub proof fn find_is_first(s: Seq<char>, c: char)
    ensures
        find(s, c) <= s.len(),
        find(s, c) < s.len() ==> s[find(s, c) as int] == c,
        forall|k: int| 0 <= k < find(s, c) ==> s[k] != c,
        find(s, c) < s.len() <==> s.contains(c),
    decreases s.len(),
{
    if s.len() > 0 && s[0] != c {
        find_is_first(s.drop_first(), c);
        assert forall|k: int| 0 <= k < find(s, c) implies s[k] != c by {
            if k > 0 {
                assert(s.drop_first()[k - 1] == s[k]);
            }
        }
    }
}

/// `rfind` gives a position with `c` in it and none after it, or -1.
pub proof fn rfind_is_last(s: Seq<char>, c: char)
    ensures
        -1 <= rfind(s, c) < s.len(),
        rfind(s, c) >= 0 ==> s[rfind(s, c)] == c,
        forall|k: int| rfind(s, c) < k < s.len() ==> s[k] != c,
    decreases s.len(),
{
    if s.len() > 0 && s.last() != c {
        rfind_is_last(s.drop_last(), c);
        assert forall|k: int| rfind(s, c) < k < s.len() implies s[k] != c by {
            if k < s.len() - 1 {
                assert(s.drop_last()[k] == s[k]);
            }
        }
    }
}

/// Whether `s` begins with `p`.
pub open spec fn has_prefix(s: Seq<char>, p: Seq<char>) -> bool {
    p.len() <= s.len() && s.take(p.len() as int) == p
}

/// Whether `p` stands in `s` at position `at`.
pub open spec fn occurs_at(s: Seq<char>, p: Seq<char>, at: int) -> bool {
    0 <= at && at + p.len() <= s.len() && s.subrange(at, at + p.len()) == p
}

/// Whether `p` stands anywhere in `s`.
pub open spec fn occurs(s: Seq<char>, p: Seq<char>) -> bool {
    exists|at: int| occurs_at(s, p, at)
}

/// The first position of `c` in `s` from `from` on, up to `to`; `to` when there is none.
pub fn find_in(s: &Vec<char>, c: char, from: usize, to: usize) -> (r: usize)
    requires
        from <= to <= s@.len(),
    ensures
        r == from + find(s@.subrange(from as int, to as int), c),
        from <= r <= to,
{
    let ghost t = s@.subrange(from as int, to as int);
    let mut i: usize = from;
    proof {
        assert(t.skip(0) =~= t);
    }
    while i < to
        invariant
            from <= i <= to <= s@.len(),
            t == s@.subrange(from as int, to as int),
            from + find(t, c) == i + find(t.skip(i - from), c),
        decreases to - i,
    {
        assert(t.skip(i - from)[0] == s@[i as int]);
        if s[i] == c {
            return i;
        }
        proof {
            assert(t.skip(i - from).drop_first() =~= t.skip(i + 1 - from));
        }
        i += 1;
    }
    i
}

/// The last position of `c` in `s` from `from` on, up to `to`, if there is one.
pub fn rfind_in(s: &Vec<char>, c: char, from: usize, to: usize) -> (r: Option<usize>)
    requires
        from <= to <= s@.len(),
    ensures
        r is None <==> rfind(s@.subrange(from as int, to as int), c) == -1,
        r matches Some(i) ==> i == from + rfind(s@.subrange(from as int, to as int), c) && from
            <= i < to,
{
    let ghost t = s@.subrange(from as int, to as int);
    let mut i: usize = to;
    proof {
        assert(t.take(t.len() as int) =~= t);
        rfind_is_last(t, c);
    }
    while i > from
        invariant
            from <= i <= to <= s@.len(),
            t == s@.subrange(from as int, to as int),
            rfind(t, c) == rfind(t.take(i - from), c),
        decreases i,
    {
        assert(t.take(i - from).last() == s@[i - 1]);
        if s[i - 1] == c {
            return Some(i - 1);
        }
        proof {
            assert(t.take(i - from).drop_last() =~= t.take(i - 1 - from));
        }
        i -= 1;
    }
    None
}

/// Whether `p` stands in `s` at position `at`.
pub fn stands_at(s: &Vec<char>, p: &Vec<char>, at: usize) -> (r: bool)
    ensures
        r == occurs_at(s@, p@, at as int),
{
    if at > s.len() || p.len() > s.len() - at {
        return false;
    }
    let mut i: usize = 0;
    while i < p.len()
        invariant
            at + p.len() <= s.len(),
            i <= p.len(),
            forall|k: int| 0 <= k < i ==> s@[at + k] == p@[k],
        decreases p.len() - i,
    {
        if s[at + i] != p[i] {
            assert(s@.subrange(at as int, at + p@.len())[i as int] != p@[i as int]);
            return false;
        }
        i += 1;
    }
    assert(s@.subrange(at as int, at + p@.len()) =~= p@);
    true
}

/// Whether `s` begins with `p`.
pub fn begins_with(s: &str, p: &str) -> (r: bool)
    ensures
        r == has_prefix(s@, p@),
{
    let x = chars_of(s);
    let y = chars_of(p);
    let r = stands_at(&x, &y, 0);
    proof {
        if p@.len() <= s@.len() {
            assert(s@.subrange(0, p@.len() as int) =~= s@.take(p@.len() as int));
        }
    }
    r
}

/// The first line of `s`: everything before the first line feed, and, when the
/// line feed is preceded by a carriage return, without that too.
pub open spec fn first_line(s: Seq<char>) -> Seq<char> {
    let n = find(s, '\n') as int;
    if n < s.len() && n > 0 && s[n - 1] == '\r' {
        s.take(n - 1)
    } else {
        s.take(n)
    }
}

/// The first line of `s`.
pub fn line_one(s: &str) -> (r: String)
    ensures
        r@ == first_line(s@),
{
    let cs = chars_of(s);
    let n = find_in(&cs, '\n', 0, cs.len());
    proof {
        assert(cs@.subrange(0, cs@.len() as int) =~= cs@);
    }
    let end: usize = if n < cs.len() && n > 0 && cs[n - 1] == '\r' {
        n - 1
    } else {
        n
    };
    let r = string_of(&cs, 0, end);
    proof {
        assert(cs@.subrange(0, end as int) =~= cs@.take(end as int));
    }
    r
}

/// A character in lower case, if it is an ASCII letter.
pub open spec fn lower(c: char) -> char {
    if 'A' <= c <= 'Z' {
        (c as int + 32) as char
    } else {
        c
    }
}

/// A text in lower case, as far as it is ASCII.
pub open spec fn lowered(s: Seq<char>) -> Seq<char> {
    Seq::new(s.len(), |i: int| lower(s[i]))
}

/// A text in lower case, as far as it is ASCII.
pub fn lower_chars(s: &str) -> (r: Vec<char>)
    ensures
        r@ == lowered(s@),
{
    let cs = chars_of(s);
    let mut out: Vec<char> = Vec::new();
    let mut i: usize = 0;
    while i < cs.len()
        invariant
            i <= cs@.len(),
            cs@ == s@,
            out@ =~= lowered(s@).take(i as int),
        decreases cs@.len() - i,
    {
        let c = cs[i];
        if 'A' <= c && c <= 'Z' {
            out.push((c as u8 + 32) as char);
        } else {
            out.push(c);
        }
        i += 1;
    }
    assert(out@ =~= lowered(s@));
    out
}

/// Whether `p` stands anywhere in `s`.
pub fn has_inside(s: &Vec<char>, p: &Vec<char>) -> (r: bool)
    ensures
        r == occurs(s@, p@),
{
    let mut at: usize = 0;
    while at < s.len()
        invariant
            at <= s@.len(),
            forall|k: int| 0 <= k < at ==> !#[trigger] occurs_at(s@, p@, k),
        decreases s@.len() - at,
    {
        if stands_at(s, p, at) {
            return true;
        }
        at += 1;
    }
    let r = stands_at(s, p, at);
    assert(forall|k: int| k > s@.len() ==> !#[trigger] occurs_at(s@, p@, k));
    r
}

// ---------------------------------------------------------------------------
// Trimming
// ---------------------------------------------------------------------------

/// The characters that the Unicode standard calls white space.
pub open spec fn is_white_space(c: char) -> bool {
    let u = c as int;
    ||| 0x9 <= u <= 0xd
    ||| u == 0x20
    ||| u == 0x85
    ||| u == 0xa0
    ||| u == 0x1680
    ||| 0x2000 <= u <= 0x200a
    ||| u == 0x2028
    ||| u == 0x2029
    ||| u == 0x202f
    ||| u == 0x205f
    ||| u == 0x3000
}

fn white_space(c: char) -> (r: bool)
    ensures
        r == is_white_space(c),
{
    let u: u32 = c as u32;
    (0x9 <= u && u <= 0xd) || u == 0x20 || u == 0x85 || u == 0xa0 || u == 0x1680 || (0x2000 <= u
        && u <= 0x200a) || u == 0x2028 || u == 0x2029 || u == 0x202f || u == 0x205f || u == 0x3000
}

/// `s` without its leading white space.
pub open spec fn trim_start(s: Seq<char>) -> Seq<char>
    decreases s.len(),
{
    if s.len() > 0 && is_white_space(s[0]) {
        trim_start(s.drop_first())
    } else {
        s
    }
}

/// `s` without its trailing white space.
pub open spec fn trim_end(s: Seq<char>) -> Seq<char>
    decreases s.len(),
{
    if s.len() > 0 && is_white_space(s.last()) {
        trim_end(s.drop_last())
    } else {
        s
    }
}

/// `s` without its leading and trailing white space.
pub open spec fn trim(s: Seq<char>) -> Seq<char> {
    trim_end(trim_start(s))
}

/// The first position in `s` that is not white space, or the length.
pub fn trimmed_from(s: &Vec<char>) -> (r: usize)
    ensures
        r <= s@.len(),
        trim_start(s@) == s@.skip(r as int),
{
    let mut i: usize = 0;
    proof {
        assert(s@.skip(0) =~= s@);
    }
    while i < s.len() && white_space(s[i])
        invariant
            i <= s@.len(),
            trim_start(s@) == trim_start(s@.skip(i as int)),
        decreases s@.len() - i,
    {
        proof {
            assert(s@.skip(i as int).drop_first() =~= s@.skip(i + 1));
        }
        i += 1;
    }
    i
}

/// The end of `s` from `from` on once trailing white space is dropped.
pub fn trimmed_to(s: &Vec<char>, from: usize) -> (r: usize)
    requires
        from <= s@.len(),
    ensures
        from <= r <= s@.len(),
        trim_end(s@.skip(from as int)) == s@.subrange(from as int, r as int),
{
    let mut i: usize = s.len();
    proof {
        assert(s@.skip(from as int) =~= s@.subrange(from as int, i as int));
    }
    while i > from && white_space(s[i - 1])
        invariant
            from <= i <= s@.len(),
            trim_end(s@.skip(from as int)) == trim_end(s@.subrange(from as int, i as int)),
        decreases i,
    {
        proof {
            assert(s@.subrange(from as int, i as int).drop_last() =~= s@.subrange(
                from as int,
                i - 1,
            ));
        }
        i -= 1;
    }
    i
}

/// `s` without leading and trailing white space.
pub fn trimmed(s: &str) -> (r: String)
    ensures
        r@ == trim(s@),
{
    let cs = chars_of(s);
    let from = trimmed_from(&cs);
    let to = trimmed_to(&cs, from);
    string_of(&cs, from, to)
}

/// Trimming twice is trimming once, and what is left has no white space at
/// either end.
pub proof fn trim_leaves_no_edge_white_space(s: Seq<char>)
    ensures
        trim(s).len() > 0 ==> !is_white_space(trim(s)[0]) && !is_white_space(trim(s).last()),
        trim(trim(s)) == trim(s),
    decreases s.len(),
{
    trim_start_skips(s);
    trim_end_keeps_first(trim_start(s));
}

proof fn trim_start_skips(s: Seq<char>)
    ensures
        trim_start(s).len() > 0 ==> !is_white_space(trim_start(s)[0]),
    decreases s.len(),
{
    if s.len() > 0 && is_white_space(s[0]) {
        trim_start_skips(s.drop_first());
    }
}

proof fn trim_end_keeps_first(s: Seq<char>)
    ensures
        trim_end(s).len() > 0 ==> trim_end(s)[0] == s[0] && !is_white_space(trim_end(s).last()),
    decreases s.len(),
{
    if s.len() > 0 && is_white_space(s.last()) {
        trim_end_keeps_first(s.drop_last());
    }
}

// ---------------------------------------------------------------------------
// Decimal numbers
// ---------------------------------------------------------------------------

/// Whether `c` is one of the ten ASCII digits.
pub open spec fn is_digit(c: char) -> bool {
    '0' <= c <= '9'
}

/// The ASCII digit for `d`.
pub open spec fn digit(d: int) -> char {
    (48 + d) as char
}

/// The decimal digits of `n`, without leading zeros.
pub open spec fn dec(n: nat) -> Seq<char>
    decreases n,
{
    if n < 10 {
        seq![digit(n as int)]
    } else {
        dec(n / 10).push(digit((n % 10) as int))
    }
}

/// The decimal form of an integer, with a leading `-` when it is negative.
pub open spec fn dec_signed(n: int) -> Seq<char> {
    if n < 0 {
        seq!['-'] + dec((-n) as nat)
    } else {
        dec(n as nat)
    }
}

/// The number that a run of digits stands for.
pub open spec fn value(s: Seq<char>) -> nat
    decreases s.len(),
{
    if s.len() == 0 {
        0
    } else {
        value(s.drop_last()) * 10 + (s.last() as int - 48) as nat
    }
}

/// `s` without a leading `+`.
pub open spec fn without_plus(s: Seq<char>) -> Seq<char> {
    if s.len() > 0 && s[0] == '+' {
        s.drop_first()
    } else {
        s
    }
}

/// Whether every character of `s` is a digit.
pub open spec fn all_digits(s: Seq<char>) -> bool {
    forall|i: int| 0 <= i < s.len() ==> is_digit(#[trigger] s[i])
}

/// Reading an unsigned number: an optional `+`, then one or more digits, whose
/// value is at most `max`.
pub open spec fn number(s: Seq<char>, max: nat) -> Option<nat> {
    let d = without_plus(s);
    if d.len() > 0 && all_digits(d) && value(d) <= max {
        Some(value(d))
    } else {
        None
    }
}

/// The decimal form of `n`.
pub fn decimal(n: u128) -> (r: String)
    ensures
        r@ == dec(n as nat),
    decreases n,
{
    if n < 10 {
        let mut s = String::new();
        s.push((48 + n as u8) as char);
        proof {
            assert(s@ =~= dec(n as nat));
        }
        s
    } else {
        let mut s = decimal(n / 10);
        s.push((48 + (n % 10) as u8) as char);
        s
    }
}

/// The decimal form of `n`.
pub fn decimal_signed(n: i64) -> (r: String)
    ensures
        r@ == dec_signed(n as int),
{
    if n < 0 {
        let m: u128 = (-(n as i128)) as u128;
        let mut s = String::new();
        s.push('-');
        let d = decimal(m);
        s.append(d.as_str());
        proof {
            assert(Seq::<char>::empty().push('-') =~= seq!['-']);
        }
        s
    } else {
        decimal(n as u128)
    }
}

proof fn value_grows(s: Seq<char>, n: int)
    requires
        0 <= n <= s.len(),
        forall|i: int| 0 <= i < s.len() ==> is_digit(#[trigger] s[i]),
    ensures
        value(s.take(n)) <= value(s),
    decreases s.len() - n,
{
    if n < s.len() {
        value_grows(s, n + 1);
        assert(s.take(n + 1).drop_last() =~= s.take(n));
        assert(is_digit(s[n]));
    } else {
        assert(s.take(n) =~= s);
    }
}

/// Read the unsigned number that stands in `s` from `from` up to `to`.
pub fn parse_number(s: &Vec<char>, from: usize, to: usize, max: u64) -> (r: Option<u64>)
    requires
        from <= to <= s@.len(),
    ensures
        match r {
            Some(n) => number(s@.subrange(from as int, to as int), max as nat) == Some(n as nat),
            None => number(s@.subrange(from as int, to as int), max as nat) is None,
        },
{
    let ghost t = s@.subrange(from as int, to as int);
    let start: usize = if from < to && s[from] == '+' {
        from + 1
    } else {
        from
    };
    let ghost d = s@.subrange(start as int, to as int);
    proof {
        assert(d =~= without_plus(t));
    }
    if start == to {
        return None;
    }
    let mut n: u64 = 0;
    let mut i: usize = start;
    while i < to
        invariant
            start <= i <= to <= s@.len(),
            d == s@.subrange(start as int, to as int),
            n == value(d.take(i - start)),
            n <= max,
            d == without_plus(t),
            from <= to,
            t == s@.subrange(from as int, to as int),
            forall|k: int| 0 <= k < i - start ==> is_digit(#[trigger] d[k]),
        decreases to - i,
    {
        let c = s[i];
        assert(d[i - start] == c);
        if !('0' <= c && c <= '9') {
            assert(!is_digit(d[i - start]));
            return None;
        }
        let v: u64 = (c as u32 - 48) as u64;
        assert(d.take(i + 1 - start).drop_last() =~= d.take(i - start));
        assert(value(d.take(i + 1 - start)) == n * 10 + v);
        if n as u128 * 10 + v as u128 > max as u128 {
            proof {
                if all_digits(d) {
                    value_grows(d, i + 1 - start);
                }
            }
            return None;
        }
        n = n * 10 + v;
        i += 1;
    }
    assert(d.take(to - start) =~= d);
    Some(n)
}

/// Reading back a number that was written in decimal gives the number.
pub proof fn number_reads_back_decimal(n: nat, max: nat)
    requires
        n <= max,
    ensures
        number(dec(n), max) == Some(n),
{
    dec_is_digits(n);
}

proof fn dec_is_digits(n: nat)
    ensures
        dec(n).len() > 0,
        forall|i: int| 0 <= i < dec(n).len() ==> is_digit(#[trigger] dec(n)[i]),
        value(dec(n)) == n,
    decreases n,
{
    if n >= 10 {
        dec_is_digits(n / 10);
        assert(dec(n).drop_last() =~= dec(n / 10));
    } else {
        assert(dec(n).drop_last() =~= Seq::<char>::empty());
        assert(value(dec(n).drop_last()) == 0);
    }
}

/// Texts compare by the first character in which they differ, the lower one
/// first; a text comes before any that it is the beginning of.
pub proof fn texts_compare_by_their_first_difference(a: Seq<char>, b: Seq<char>, i: int)
    requires
        0 <= i <= a.len(),
        i <= b.len(),
        forall|k: int| 0 <= k < i ==> a[k] == b[k],
    ensures
        i < a.len() && i < b.len() && (a[i] as int) < (b[i] as int) ==> rank_text(a, b)
            == Rank::Before,
        i < a.len() && i < b.len() && (a[i] as int) > (b[i] as int) ==> rank_text(a, b)
            == Rank::After,
        i == a.len() && i < b.len() ==> rank_text(a, b) == Rank::Before,
        i < a.len() && i == b.len() ==> rank_text(a, b) == Rank::After,
        i == a.len() && i == b.len() ==> rank_text(a, b) == Rank::Equal,
    decreases i,
{
    if i > 0 {
        let x = a.drop_first();
        let y = b.drop_first();
        assert(a[0] == b[0]);
        assert forall|k: int| 0 <= k < i - 1 implies x[k] == y[k] by {
            assert(a[k + 1] == b[k + 1]);
        }
        texts_compare_by_their_first_difference(x, y, i - 1);
    }
}

/// The latest row comes first: one with a later timestamp before one with an
/// earlier, a dated one before an undated, and of two with the same timestamp the
/// one with the higher number.
pub proof fn the_latest_comes_first(x: Seq<char>, y: Seq<char>, a: i64, b: i64)
    ensures
        rank_text(x, y) == Rank::After ==> rank_latest(Some(x), a, Some(y), b) == Rank::Before,
        rank_text(x, y) == Rank::Before ==> rank_latest(Some(x), a, Some(y), b) == Rank::After,
        rank_latest(Some(x), a, None, b) == Rank::Before,
        rank_latest(None, a, Some(y), b) == Rank::After,
        a > b ==> rank_latest(Some(x), a, Some(x), b) == Rank::Before,
        a > b ==> rank_latest(None, a, None, b) == Rank::Before,
        a < b ==> rank_latest(Some(x), a, Some(x), b) == Rank::After,
        a < b ==> rank_latest(None, a, None, b) == Rank::After,
{
    rank_text_is_an_order(x, y, x);
    rank_text_is_an_order(x, x, x);
}

/// A number is written in digits alone.
pub proof fn written_in_digits(n: nat)
    ensures
        dec(n).len() > 0,
        forall|i: int| 0 <= i < dec(n).len() ==> is_digit(#[trigger] dec(n)[i]),
{
    dec_is_digits(n);
}

} // verus!
