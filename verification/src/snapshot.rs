//! Change detection over the meaningful values of every section, not over what
//! is drawn: a pull request that comes, goes or merges, a queue position, a
//! status, a mergeability, a number of failures, a title.

use crate::merged::{MergedRow, MergedRowView};
use crate::order::{rows_view, rows_view_push};
use crate::prs::{copy_queue, queue_view, PrRow, PrRowView};
use crate::queue::{QueueRow, QueueRowView};
use crate::status::Status;
use crate::text::{copy_opt, opt_view, same};
use vstd::prelude::*;

verus! {

/// The meaningful values of one refresh.
#[derive(Clone, Debug, PartialEq, Eq)]
pub struct Snapshot {
    pub merged: Vec<MergedSnap>,
    pub queue: Vec<QueueSnap>,
    pub prs: Vec<PrSnap>,
}

#[derive(Clone, Debug, PartialEq, Eq)]
pub struct MergedSnap {
    pub number: i64,
    pub merged_at: Option<String>,
}

#[derive(Clone, Debug, PartialEq, Eq)]
pub struct QueueSnap {
    pub position: i64,
    pub number: i64,
    pub author: String,
    pub title: String,
}

#[derive(Clone, Debug, PartialEq, Eq)]
pub struct PrSnap {
    pub number: i64,
    pub is_draft: bool,
    pub title: String,
    pub status: Option<Status>,
    pub merge_state: Option<String>,
    pub queue: Option<(i64, String)>,
    pub fail: usize,
}

pub struct MergedSnapView {
    pub number: i64,
    pub merged_at: Option<Seq<char>>,
}

pub struct QueueSnapView {
    pub position: i64,
    pub number: i64,
    pub author: Seq<char>,
    pub title: Seq<char>,
}

pub struct PrSnapView {
    pub number: i64,
    pub is_draft: bool,
    pub title: Seq<char>,
    pub status: Option<Status>,
    pub merge_state: Option<Seq<char>>,
    pub queue: Option<(i64, Seq<char>)>,
    pub fail: nat,
}

/// What a snapshot holds.
#[verifier::ext_equal]
pub struct SnapshotView {
    pub merged: Seq<MergedSnapView>,
    pub queue: Seq<QueueSnapView>,
    pub prs: Seq<PrSnapView>,
}

impl View for MergedSnap {
    type V = MergedSnapView;

    open spec fn view(&self) -> MergedSnapView {
        MergedSnapView { number: self.number, merged_at: opt_view(self.merged_at) }
    }
}

impl View for QueueSnap {
    type V = QueueSnapView;

    open spec fn view(&self) -> QueueSnapView {
        QueueSnapView {
            position: self.position,
            number: self.number,
            author: self.author@,
            title: self.title@,
        }
    }
}

impl View for PrSnap {
    type V = PrSnapView;

    open spec fn view(&self) -> PrSnapView {
        PrSnapView {
            number: self.number,
            is_draft: self.is_draft,
            title: self.title@,
            status: self.status,
            merge_state: opt_view(self.merge_state),
            queue: queue_view(self.queue),
            fail: self.fail as nat,
        }
    }
}

impl View for Snapshot {
    type V = SnapshotView;

    open spec fn view(&self) -> SnapshotView {
        SnapshotView {
            merged: rows_view(self.merged@),
            queue: rows_view(self.queue@),
            prs: rows_view(self.prs@),
        }
    }
}

impl Default for Snapshot {
    fn default() -> (r: Self)
        ensures
            r@ == snap_of(Seq::empty(), Seq::empty(), Seq::empty()),
    {
        let r = Snapshot { merged: Vec::new(), queue: Vec::new(), prs: Vec::new() };
        proof {
            assert(r@ =~= snap_of(Seq::empty(), Seq::empty(), Seq::empty()));
        }
        r
    }
}

/// What is kept of a merged row.
pub open spec fn merged_snap(r: MergedRowView) -> MergedSnapView {
    MergedSnapView { number: r.number, merged_at: r.merged_at }
}

/// What is kept of a queue row.
pub open spec fn queue_snap(r: QueueRowView) -> QueueSnapView {
    QueueSnapView { position: r.position, number: r.number, author: r.author, title: r.title }
}

/// What is kept of an open pull request's row.
pub open spec fn pr_snap(r: PrRowView) -> PrSnapView {
    PrSnapView {
        number: r.number,
        is_draft: r.is_draft,
        title: r.title,
        status: r.status,
        merge_state: r.merge_state,
        queue: r.queue,
        fail: r.fail,
    }
}

/// The snapshot of three lists of rows.
pub open spec fn snap_of(
    merged: Seq<MergedRowView>,
    queue: Seq<QueueRowView>,
    prs: Seq<PrRowView>,
) -> SnapshotView {
    SnapshotView {
        merged: Seq::new(merged.len(), |i: int| merged_snap(merged[i])),
        queue: Seq::new(queue.len(), |i: int| queue_snap(queue[i])),
        prs: Seq::new(prs.len(), |i: int| pr_snap(prs[i])),
    }
}

/// The rows of a section, none when the section is disabled.
pub open spec fn section_rows<T: View>(rows: Option<&[T]>) -> Seq<T::V> {
    match rows {
        Some(r) => rows_view(r@),
        None => Seq::empty(),
    }
}

/// The numbers in `now` that are not in `before`, in their order.
pub open spec fn new_numbers(now: Seq<MergedSnapView>, before: Seq<MergedSnapView>) -> Seq<i64>
    decreases now.len(),
{
    if now.len() == 0 {
        Seq::empty()
    } else {
        let rest = new_numbers(now.drop_last(), before);
        if has_number(before, now.last().number) {
            rest
        } else {
            rest.push(now.last().number)
        }
    }
}

/// Whether a pull request is among the merged.
pub open spec fn has_number(s: Seq<MergedSnapView>, number: i64) -> bool {
    exists|i: int| 0 <= i < s.len() && (#[trigger] s[i]).number == number
}

impl Snapshot {
    /// Build a snapshot from the rows of each section. A disabled section counts
    /// as an empty one.
    pub fn build(
        merged: Option<&[MergedRow]>,
        queue: Option<&[QueueRow]>,
        prs: Option<&[PrRow]>,
    ) -> (r: Snapshot)
        ensures
            r@ == snap_of(section_rows(merged), section_rows(queue), section_rows(prs)),
    {
        let mut out = Snapshot { merged: Vec::new(), queue: Vec::new(), prs: Vec::new() };
        if let Some(rows) = merged {
            let mut i: usize = 0;
            while i < rows.len()
                invariant
                    i <= rows@.len(),
                    out.queue@.len() == 0,
                    out.prs@.len() == 0,
                    rows_view(out.merged@) =~= Seq::new(
                        i as nat,
                        |k: int| merged_snap(rows_view(rows@)[k]),
                    ),
                decreases rows@.len() - i,
            {
                let snap = MergedSnap {
                    number: rows[i].number,
                    merged_at: copy_opt(&rows[i].merged_at),
                };
                proof {
                    assert(snap@ == merged_snap(rows_view(rows@)[i as int]));
                    rows_view_push(out.merged@, snap);
                }
                out.merged.push(snap);
                i += 1;
            }
        }
        let ghost want = snap_of(section_rows(merged), section_rows(queue), section_rows(prs));
        assert(rows_view(out.merged@) =~= want.merged);
        if let Some(rows) = queue {
            let mut i: usize = 0;
            while i < rows.len()
                invariant
                    i <= rows@.len(),
                    out.prs@.len() == 0,
                    rows_view(out.merged@) == want.merged,
                    rows_view(out.queue@) =~= Seq::new(
                        i as nat,
                        |k: int| queue_snap(rows_view(rows@)[k]),
                    ),
                decreases rows@.len() - i,
            {
                let snap = QueueSnap {
                    position: rows[i].position,
                    number: rows[i].number,
                    author: rows[i].author.clone(),
                    title: rows[i].title.clone(),
                };
                proof {
                    assert(snap@ == queue_snap(rows_view(rows@)[i as int]));
                    rows_view_push(out.queue@, snap);
                }
                out.queue.push(snap);
                i += 1;
            }
        }
        assert(rows_view(out.queue@) =~= want.queue);
        if let Some(rows) = prs {
            let mut i: usize = 0;
            while i < rows.len()
                invariant
                    i <= rows@.len(),
                    rows_view(out.merged@) == want.merged,
                    rows_view(out.queue@) == want.queue,
                    rows_view(out.prs@) =~= Seq::new(
                        i as nat,
                        |k: int| pr_snap(rows_view(rows@)[k]),
                    ),
                decreases rows@.len() - i,
            {
                let snap = PrSnap {
                    number: rows[i].number,
                    is_draft: rows[i].is_draft,
                    title: rows[i].title.clone(),
                    status: rows[i].status,
                    merge_state: copy_opt(&rows[i].merge_state),
                    queue: copy_queue(&rows[i].queue),
                    fail: rows[i].fail,
                };
                proof {
                    assert(snap@ == pr_snap(rows_view(rows@)[i as int]));
                    rows_view_push(out.prs@, snap);
                }
                out.prs.push(snap);
                i += 1;
            }
        }
        assert(rows_view(out.prs@) =~= want.prs);
        out
    }

    /// The pull requests that are merged here and were not in `prev`.
    pub fn newly_merged(&self, prev: &Snapshot) -> (r: Vec<i64>)
        ensures
            r@ == new_numbers(self@.merged, prev@.merged),
    {
        let mut out: Vec<i64> = Vec::new();
        let mut i: usize = 0;
        let ghost now = rows_view(self.merged@);
        let ghost before = rows_view(prev.merged@);
        proof {
            assert(now.take(0) =~= Seq::empty());
        }
        while i < self.merged.len()
            invariant
                i <= self.merged@.len(),
                now == rows_view(self.merged@),
                before == rows_view(prev.merged@),
                out@ == new_numbers(now.take(i as int), before),
            decreases self.merged@.len() - i,
        {
            let number = self.merged[i].number;
            let mut known = false;
            let mut j: usize = 0;
            while j < prev.merged.len()
                invariant
                    j <= prev.merged@.len(),
                    before == rows_view(prev.merged@),
                    known == exists|k: int| 0 <= k < j && (#[trigger] before[k]).number == number,
                decreases prev.merged@.len() - j,
            {
                assert(before[j as int].number == prev.merged@[j as int].number);
                if prev.merged[j].number == number {
                    known = true;
                }
                j += 1;
            }
            proof {
                assert(now.take(i + 1).drop_last() =~= now.take(i as int));
                assert(known == has_number(before, number));
            }
            if !known {
                out.push(number);
            }
            i += 1;
        }
        proof {
            assert(now.take(i as int) =~= now);
        }
        out
    }
}

fn same_opt(a: &Option<String>, b: &Option<String>) -> (r: bool)
    ensures
        r == (opt_view(*a) == opt_view(*b)),
{
    match (a, b) {
        (Some(x), Some(y)) => same(x.as_str(), y.as_str()),
        (None, None) => true,
        _ => false,
    }
}

fn same_queue(a: &Option<(i64, String)>, b: &Option<(i64, String)>) -> (r: bool)
    ensures
        r == (queue_view(*a) == queue_view(*b)),
{
    match (a, b) {
        (Some(x), Some(y)) => x.0 == y.0 && same(x.1.as_str(), y.1.as_str()),
        (None, None) => true,
        _ => false,
    }
}

/// A record that can be told from another of its kind by its view.
trait Alike: View + Sized {
    fn alike(&self, other: &Self) -> (r: bool)
        ensures
            r == (self@ == other@),
    ;
}

impl Alike for MergedSnap {
    fn alike(&self, other: &Self) -> (r: bool) {
        self.number == other.number && same_opt(&self.merged_at, &other.merged_at)
    }
}

impl Alike for QueueSnap {
    fn alike(&self, other: &Self) -> (r: bool) {
        self.position == other.position && self.number == other.number && same(
            self.author.as_str(),
            other.author.as_str(),
        ) && same(self.title.as_str(), other.title.as_str())
    }
}

impl Alike for PrSnap {
    fn alike(&self, other: &Self) -> (r: bool) {
        self.number == other.number && self.is_draft == other.is_draft && same(
            self.title.as_str(),
            other.title.as_str(),
        ) && self.status == other.status && same_opt(&self.merge_state, &other.merge_state)
            && same_queue(&self.queue, &other.queue) && self.fail == other.fail
    }
}

fn all_alike<T: Alike>(a: &Vec<T>, b: &Vec<T>) -> (r: bool)
    ensures
        r == (rows_view(a@) == rows_view(b@)),
{
    if a.len() != b.len() {
        assert(rows_view(a@).len() != rows_view(b@).len());
        return false;
    }
    let mut i: usize = 0;
    while i < a.len()
        invariant
            a@.len() == b@.len(),
            i <= a@.len(),
            forall|k: int| 0 <= k < i ==> (#[trigger] a@[k])@ == b@[k]@,
        decreases a@.len() - i,
    {
        if !a[i].alike(&b[i]) {
            assert(rows_view(a@)[i as int] != rows_view(b@)[i as int]);
            return false;
        }
        i += 1;
    }
    assert(rows_view(a@) =~= rows_view(b@));
    true
}

/// Whether a refresh rings the bell: there was one before, and it differs.
pub open spec fn rings(prev: Option<SnapshotView>, now: SnapshotView) -> bool {
    prev matches Some(p) && p != now
}

/// Whether this refresh should ring the bell. The first one never does.
pub fn should_ring(prev: Option<&Snapshot>, now: &Snapshot) -> (r: bool)
    ensures
        r == rings(
            match prev {
                Some(p) => Some(p@),
                None => None,
            },
            now@,
        ),
{
    match prev {
        Some(p) => {
            let equal = all_alike(&p.merged, &now.merged) && all_alike(&p.queue, &now.queue)
                && all_alike(&p.prs, &now.prs);
            !equal
        },
        None => false,
    }
}

/// How often the bell rings over a run of refreshes, each held against the one
/// before it and the first against `prev`.
pub open spec fn ring_count(prev: Option<SnapshotView>, s: Seq<SnapshotView>) -> nat
    decreases s.len(),
{
    if s.len() == 0 {
        0
    } else {
        (if rings(prev, s[0]) {
            1nat
        } else {
            0nat
        }) + ring_count(Some(s[0]), s.drop_first())
    }
}

/// The bell is silent on the first refresh, rings once when the snapshot
/// changes, and stays silent for as long as it then stays the same.
pub proof fn a_change_rings_exactly_once(a: SnapshotView, b: SnapshotView, again: nat)
    requires
        a != b,
    ensures
        !rings(None, a),
        ring_count(Some(a), Seq::new(again + 1, |i: int| b)) == 1,
{
    let s = Seq::new(again + 1, |i: int| b);
    assert(s.drop_first() =~= Seq::new(again, |i: int| b));
    the_same_never_rings(b, again);
}

proof fn the_same_never_rings(b: SnapshotView, n: nat)
    ensures
        ring_count(Some(b), Seq::new(n, |i: int| b)) == 0,
    decreases n,
{
    if n > 0 {
        let s = Seq::new(n, |i: int| b);
        assert(s.drop_first() =~= Seq::new((n - 1) as nat, |i: int| b));
        the_same_never_rings(b, (n - 1) as nat);
    }
}

/// A disabled section counts as an empty one, so that hiding a section that is
/// empty, or showing it, is no change.
pub proof fn a_disabled_section_is_an_empty_one<T: View>(rows: &[T])
    requires
        rows@.len() == 0,
    ensures
        section_rows::<T>(None) == section_rows::<T>(Some(rows)),
{
    assert(rows_view(rows@) =~= Seq::<T::V>::empty());
}

/// A pull request is reported as newly merged exactly when it is among the
/// merged now and was not before.
pub proof fn newly_merged_is_the_difference(
    now: Seq<MergedSnapView>,
    before: Seq<MergedSnapView>,
    number: i64,
)
    ensures
        new_numbers(now, before).contains(number) <==> has_number(now, number) && !has_number(
            before,
            number,
        ),
    decreases now.len(),
{
    if now.len() > 0 {
        let t = now.drop_last();
        newly_merged_is_the_difference(t, before, number);
        let u = new_numbers(t, before);
        let last = now.last().number;
        assert(has_number(now, number) <==> has_number(t, number) || last == number) by {
            if has_number(t, number) {
                let i = choose|i: int| 0 <= i < t.len() && (#[trigger] t[i]).number == number;
                assert(now[i].number == number);
            }
            if last == number {
                assert(now[now.len() - 1].number == number);
            }
            if has_number(now, number) && last != number {
                let i = choose|i: int| 0 <= i < now.len() && (#[trigger] now[i]).number == number;
                assert(t[i].number == number);
            }
        }
        assert(u.push(last).contains(number) <==> u.contains(number) || last == number) by {
            if u.contains(number) {
                let i = choose|i: int| 0 <= i < u.len() && u[i] == number;
                assert(u.push(last)[i] == number);
            }
            assert(u.push(last)[u.len() as int] == last);
        }
    }
}

/// The bell rings exactly when a value changes that matters: of a merged pull
/// request its number and merge time, of a queue entry its position, number,
/// author and title, of an open pull request its number, draft flag, title,
/// status, merge state, place in the queue and count of failures, or when a row
/// comes, goes or moves. Nothing else of a row rings it.
pub proof fn the_bell_rings_for_what_matters(
    merged: Seq<MergedRowView>,
    queue: Seq<QueueRowView>,
    prs: Seq<PrRowView>,
    merged2: Seq<MergedRowView>,
    queue2: Seq<QueueRowView>,
    prs2: Seq<PrRowView>,
)
    ensures
        rings(Some(snap_of(merged, queue, prs)), snap_of(merged2, queue2, prs2)) <==> !({
            &&& merged.len() == merged2.len()
            &&& queue.len() == queue2.len()
            &&& prs.len() == prs2.len()
            &&& forall|i: int|
                0 <= i < merged.len() ==> (#[trigger] merged[i]).number == merged2[i].number
                    && merged[i].merged_at == merged2[i].merged_at
            &&& forall|i: int|
                0 <= i < queue.len() ==> (#[trigger] queue[i]).position == queue2[i].position
                    && queue[i].number == queue2[i].number && queue[i].author == queue2[i].author
                    && queue[i].title == queue2[i].title
            &&& forall|i: int|
                0 <= i < prs.len() ==> (#[trigger] prs[i]).number == prs2[i].number
                    && prs[i].is_draft == prs2[i].is_draft && prs[i].title == prs2[i].title
                    && prs[i].status == prs2[i].status && prs[i].merge_state == prs2[i].merge_state
                    && prs[i].queue == prs2[i].queue && prs[i].fail == prs2[i].fail
        }),
        !rings(None, snap_of(merged2, queue2, prs2)),
{
    let a = snap_of(merged, queue, prs);
    let b = snap_of(merged2, queue2, prs2);
    if a == b {
        assert(a.merged.len() == b.merged.len() && a.queue.len() == b.queue.len() && a.prs.len()
            == b.prs.len());
        assert forall|i: int| 0 <= i < merged.len() implies (#[trigger] merged[i]).number
            == merged2[i].number && merged[i].merged_at == merged2[i].merged_at by {
            assert(a.merged[i] == b.merged[i]);
        }
        assert forall|i: int| 0 <= i < queue.len() implies (#[trigger] queue[i]).position
            == queue2[i].position && queue[i].number == queue2[i].number && queue[i].author
            == queue2[i].author && queue[i].title == queue2[i].title by {
            assert(a.queue[i] == b.queue[i]);
        }
        assert forall|i: int| 0 <= i < prs.len() implies (#[trigger] prs[i]).number
            == prs2[i].number && prs[i].is_draft == prs2[i].is_draft && prs[i].title
            == prs2[i].title && prs[i].status == prs2[i].status && prs[i].merge_state
            == prs2[i].merge_state && prs[i].queue == prs2[i].queue && prs[i].fail
            == prs2[i].fail by {
            assert(a.prs[i] == b.prs[i]);
        }
    }
    if !rings(Some(a), b) {
    } else if merged.len() == merged2.len() && queue.len() == queue2.len() && prs.len()
        == prs2.len() {
        if (forall|i: int|
            0 <= i < merged.len() ==> (#[trigger] merged[i]).number == merged2[i].number
                && merged[i].merged_at == merged2[i].merged_at) && (forall|i: int|
            0 <= i < queue.len() ==> (#[trigger] queue[i]).position == queue2[i].position
                && queue[i].number == queue2[i].number && queue[i].author == queue2[i].author
                && queue[i].title == queue2[i].title) && (forall|i: int|
            0 <= i < prs.len() ==> (#[trigger] prs[i]).number == prs2[i].number
                && prs[i].is_draft == prs2[i].is_draft && prs[i].title == prs2[i].title
                && prs[i].status == prs2[i].status && prs[i].merge_state == prs2[i].merge_state
                && prs[i].queue == prs2[i].queue && prs[i].fail == prs2[i].fail) {
            assert(a.merged =~= b.merged);
            assert(a.queue =~= b.queue);
            assert(a.prs =~= b.prs);
            assert(a == b);
        }
    }
}

/// What the bell decides on two refreshes of open pull requests: it rings when the
/// status, the title or the merge state of one is another, and when one comes or
/// goes.
pub proof fn a_changed_row_rings(
    before: &[PrRow],
    after: &[PrRow],
    a: Snapshot,
    b: Snapshot,
    ring: bool,
    i: int,
)
    requires
        call_ensures(Snapshot::build, (None, None, Some(before)), a),
        call_ensures(Snapshot::build, (None, None, Some(after)), b),
        call_ensures(should_ring, (Some(&a), &b), ring),
        0 <= i < before@.len(),
    ensures
        before@.len() != after@.len() ==> ring,
        before@.len() == after@.len() && (before@[i].number != after@[i].number || before@[i].status
            != after@[i].status || before@[i].title@ != after@[i].title@ || opt_view(
            before@[i].merge_state,
        ) != opt_view(after@[i].merge_state) || before@[i].fail != after@[i].fail) ==> ring,
{
    let p = rows_view(before@);
    let q = rows_view(after@);
    the_bell_rings_for_what_matters(Seq::empty(), Seq::empty(), p, Seq::empty(), Seq::empty(), q);
    assert(p[i] == before@[i]@);
    if before@.len() == after@.len() {
        assert(q[i] == after@[i]@);
    }
}

} // verus!
