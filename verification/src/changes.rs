//! What rings the bell: a pull request of mine that merges, and an open one
//! whose status changes. Both go by number, so a new order of the rows is silent.

use crate::merged::{MergedRow, MergedRowView};
use crate::order::rows_view;
use crate::prs::{PrRow, PrRowView};
use crate::snapshot::section_rows;
use crate::status::Status;
use std::collections::{HashMap, HashSet};
use vstd::prelude::*;
use vstd::std_specs::iter::IteratorSpec;

verus! {

/// What one refresh holds of the things that can ring the bell.
#[derive(Debug)]
pub struct Tracker {
    open_status: HashMap<i64, Option<Status>>,
    merged: HashSet<i64>,
}

/// A tracker's contents: the status of each open pull request, and the merged
/// ones.
pub struct TrackerView {
    pub open_status: Map<i64, Option<Status>>,
    pub merged: Set<i64>,
}

impl View for Tracker {
    type V = TrackerView;

    closed spec fn view(&self) -> TrackerView {
        TrackerView { open_status: self.open_status@, merged: self.merged@ }
    }
}

/// What changed between one refresh and the next.
#[derive(Debug)]
pub struct Changes {
    /// Open pull requests whose status changed.
    pub status_changed: HashSet<i64>,
    /// Pull requests that are newly among the merged.
    pub newly_merged: HashSet<i64>,
}

/// The status of each open pull request; of two rows with one number, the later
/// one counts.
pub open spec fn statuses(rows: Seq<PrRowView>) -> Map<i64, Option<Status>>
    decreases rows.len(),
{
    if rows.len() == 0 {
        Map::empty()
    } else {
        statuses(rows.drop_last()).insert(rows.last().number, rows.last().status)
    }
}

/// The numbers of the merged pull requests.
pub open spec fn numbers(rows: Seq<MergedRowView>) -> Set<i64>
    decreases rows.len(),
{
    if rows.len() == 0 {
        Set::empty()
    } else {
        numbers(rows.drop_last()).insert(rows.last().number)
    }
}

/// Whether a pull request is open in both refreshes with a different status.
pub open spec fn status_differs(now: TrackerView, prev: TrackerView, number: i64) -> bool {
    &&& now.open_status.contains_key(number)
    &&& prev.open_status.contains_key(number)
    &&& now.open_status[number] != prev.open_status[number]
}

/// Whether a pull request is merged now and was not before.
pub open spec fn newly(now: TrackerView, prev: TrackerView, number: i64) -> bool {
    now.merged.contains(number) && !prev.merged.contains(number)
}

impl Default for Changes {
    fn default() -> (r: Self)
        ensures
            forall|n: i64| !#[trigger] r.status_changed@.contains(n),
            forall|n: i64| !#[trigger] r.newly_merged@.contains(n),
    {
        Changes { status_changed: HashSet::new(), newly_merged: HashSet::new() }
    }
}

impl Default for Tracker {
    fn default() -> (r: Self)
        ensures
            r@.open_status == Map::<i64, Option<Status>>::empty(),
            r@.merged == Set::<i64>::empty(),
    {
        Tracker { open_status: HashMap::new(), merged: HashSet::new() }
    }
}

fn copy_numbers(from: &HashSet<i64>) -> (r: HashSet<i64>)
    ensures
        r@ == from@,
{
    broadcast use vstd::std_specs::hash::group_hash_axioms;

    let ghost all = from.iter().remaining();
    let mut out: HashSet<i64> = HashSet::new();
    for num in it: from.iter()
        invariant
            it.seq() == all,
            forall|n: i64| #[trigger]
                out@.contains(n) <==> exists|k: int|
                    0 <= k < it.index() && *(#[trigger] all[k]) == n,
    {
        assert(*all[it.index() as int] == *num);
        out.insert(*num);
    }
    proof {
        assert forall|n: i64| from@.contains(n) <==> #[trigger] out@.contains(n) by {
            assert(from@.contains(n) <==> all.unref().to_set().contains(n));
            if from@.contains(n) {
                let k = choose|k: int| 0 <= k < all.unref().len() && all.unref()[k] == n;
                assert(*all[k] == n);
            }
            if out@.contains(n) {
                let k = choose|k: int| 0 <= k < all.len() && *(#[trigger] all[k]) == n;
                assert(all.unref()[k] == n);
            }
        }
        assert(out@ =~= from@);
    }
    out
}

fn copy_statuses(from: &HashMap<i64, Option<Status>>) -> (r: HashMap<i64, Option<Status>>)
    ensures
        r@ == from@,
{
    broadcast use vstd::std_specs::hash::group_hash_axioms;

    let ghost all = from.keys().remaining();
    let mut out: HashMap<i64, Option<Status>> = HashMap::new();
    for num in it: from.keys()
        invariant
            it.seq() == all,
            all.unref().to_set() == from@.dom(),
            forall|n: i64| #[trigger]
                out@.contains_key(n) <==> exists|k: int|
                    0 <= k < it.index() && *(#[trigger] all[k]) == n,
            forall|n: i64| #[trigger]
                out@.contains_key(n) ==> from@.contains_key(n) && out@[n] == from@[n],
    {
        proof {
            assert(*all[it.index() as int] == *num);
            assert(all.unref()[it.index() as int] == *num);
            assert(all.unref().to_set().contains(*num));
        }
        if let Some(status) = from.get(num) {
            out.insert(*num, *status);
        }
    }
    proof {
        assert forall|n: i64| from@.contains_key(n) implies #[trigger] out@.contains_key(n) by {
            assert(all.unref().to_set().contains(n));
            let k = choose|k: int| 0 <= k < all.unref().len() && all.unref()[k] == n;
            assert(*all[k] == n);
        }
        assert(out@ =~= from@);
    }
    out
}

impl Clone for Changes {
    fn clone(&self) -> (r: Self)
        ensures
            r.status_changed@ == self.status_changed@,
            r.newly_merged@ == self.newly_merged@,
    {
        Changes {
            status_changed: copy_numbers(&self.status_changed),
            newly_merged: copy_numbers(&self.newly_merged),
        }
    }
}

impl Clone for Tracker {
    fn clone(&self) -> (r: Self)
        ensures
            r@ == self@,
    {
        Tracker {
            open_status: copy_statuses(&self.open_status),
            merged: copy_numbers(&self.merged),
        }
    }
}

/// Whether there is a change.
pub open spec fn something(c: Changes) -> bool {
    exists|n: i64| #[trigger] c.status_changed@.contains(n) || c.newly_merged@.contains(n)
}

impl Changes {
    /// Whether anything happened that rings the bell.
    pub fn any(&self) -> (r: bool)
        ensures
            r == something(*self),
    {
        let r = !self.status_changed.is_empty() || !self.newly_merged.is_empty();
        proof {
            let a = self.status_changed@;
            let b = self.newly_merged@;
            if !a.is_empty() {
                let n = a.choose();
                assert(a.contains(n));
            }
            if !b.is_empty() {
                let n = b.choose();
                assert(b.contains(n));
                assert(a.contains(n) || b.contains(n));
            }
        }
        r
    }
}

impl Tracker {
    /// Record the sections of a refresh; a disabled section counts as empty.
    pub fn build(open: Option<&[PrRow]>, merged: Option<&[MergedRow]>) -> (r: Tracker)
        ensures
            r@.open_status == statuses(section_rows(open)),
            r@.merged == numbers(section_rows(merged)),
    {
        let mut open_status: HashMap<i64, Option<Status>> = HashMap::new();
        let mut numbers_seen: HashSet<i64> = HashSet::new();
        if let Some(rows) = open {
            let ghost all = rows_view(rows@);
            let mut i: usize = 0;
            proof {
                assert(all.take(0) =~= Seq::empty());
            }
            while i < rows.len()
                invariant
                    i <= rows@.len(),
                    all == rows_view(rows@),
                    open_status@ == statuses(all.take(i as int)),
                decreases rows@.len() - i,
            {
                proof {
                    assert(all.take(i + 1).drop_last() =~= all.take(i as int));
                }
                open_status.insert(rows[i].number, rows[i].status);
                i += 1;
            }
            proof {
                assert(all.take(i as int) =~= all);
            }
        }
        if let Some(rows) = merged {
            let ghost all = rows_view(rows@);
            let mut i: usize = 0;
            proof {
                assert(all.take(0) =~= Seq::empty());
            }
            while i < rows.len()
                invariant
                    i <= rows@.len(),
                    all == rows_view(rows@),
                    numbers_seen@ == numbers(all.take(i as int)),
                decreases rows@.len() - i,
            {
                proof {
                    assert(all.take(i + 1).drop_last() =~= all.take(i as int));
                }
                numbers_seen.insert(rows[i].number);
                i += 1;
            }
            proof {
                assert(all.take(i as int) =~= all);
            }
        }
        Tracker { open_status, merged: numbers_seen }
    }

    /// The changes from `prev`, the refresh before, to this one. A pull request
    /// has to be open in both to count as changed.
    pub fn diff(&self, prev: &Tracker) -> (r: Changes)
        ensures
            forall|n: i64|
                #[trigger] r.status_changed@.contains(n) <==> status_differs(self@, prev@, n),
            forall|n: i64| #[trigger] r.newly_merged@.contains(n) <==> newly(self@, prev@, n),
    {
        broadcast use vstd::std_specs::hash::group_hash_axioms;

        let ghost open = self.open_status.keys().remaining();
        let mut status_changed: HashSet<i64> = HashSet::new();
        for num in it: self.open_status.keys()
            invariant
                it.seq() == open,
                forall|n: i64| #[trigger]
                    status_changed@.contains(n) <==> status_differs(self@, prev@, n) && exists|k: int|
                        0 <= k < it.index() && *(#[trigger] open[k]) == n,
        {
            assert(*open[it.index() as int] == *num);
            if let (Some(now), Some(before)) = (
                self.open_status.get(num),
                prev.open_status.get(num),
            ) {
                if *now != *before {
                    status_changed.insert(*num);
                }
            }
        }
        proof {
            assert forall|n: i64| self.open_status@.contains_key(n) implies exists|k: int|
                0 <= k < open.len() && *(#[trigger] open[k]) == n by {
                assert(open.unref().to_set().contains(n));
                let k = choose|k: int| 0 <= k < open.unref().len() && open.unref()[k] == n;
                assert(*open[k] == n);
            }
        }
        let ghost done = self.merged.iter().remaining();
        let mut newly_merged: HashSet<i64> = HashSet::new();
        for num in it: self.merged.iter()
            invariant
                it.seq() == done,
                forall|n: i64| #[trigger]
                    newly_merged@.contains(n) <==> newly(self@, prev@, n) && exists|k: int|
                        0 <= k < it.index() && *(#[trigger] done[k]) == n,
        {
            assert(*done[it.index() as int] == *num);
            proof {
                assert(done.unref()[it.index() as int] == *num);
                assert(done.unref().to_set().contains(*num));
            }
            if !prev.merged.contains(num) {
                newly_merged.insert(*num);
            }
        }
        proof {
            assert forall|n: i64| self.merged@.contains(n) implies exists|k: int|
                0 <= k < done.len() && *(#[trigger] done[k]) == n by {
                assert(done.unref().to_set().contains(n));
                let k = choose|k: int| 0 <= k < done.unref().len() && done.unref()[k] == n;
                assert(*done[k] == n);
            }
        }
        Changes { status_changed, newly_merged }
    }
}

/// Nothing changes between a refresh and itself.
pub proof fn the_same_refresh_is_silent(t: TrackerView, number: i64)
    ensures
        !status_differs(t, t, number),
        !newly(t, t, number),
{
}

/// A pull request that was not open before never counts as changed.
pub proof fn a_new_pull_request_is_silent(now: TrackerView, prev: TrackerView, number: i64)
    requires
        !prev.open_status.contains_key(number),
    ensures
        !status_differs(now, prev, number),
{
}


/// Whether each pull request has one row.
pub open spec fn one_row_each(rows: Seq<PrRowView>) -> bool {
    forall|i: int, j: int|
        0 <= i < j < rows.len() ==> (#[trigger] rows[i]).number != (#[trigger] rows[j]).number
}

proof fn statuses_are_those_of_the_rows(rows: Seq<PrRowView>)
    requires
        one_row_each(rows),
    ensures
        forall|i: int|
            0 <= i < rows.len() ==> statuses(rows).contains_key((#[trigger] rows[i]).number)
                && statuses(rows)[rows[i].number] == rows[i].status,
        forall|n: i64| #[trigger]
            statuses(rows).contains_key(n) ==> exists|i: int|
                0 <= i < rows.len() && (#[trigger] rows[i]).number == n,
    decreases rows.len(),
{
    if rows.len() > 0 {
        let t = rows.drop_last();
        assert forall|i: int, j: int| 0 <= i < j < t.len() implies (#[trigger] t[i]).number != (
        #[trigger] t[j]).number by {
            assert(rows[i].number != rows[j].number);
        }
        statuses_are_those_of_the_rows(t);
        let last = rows[rows.len() - 1];
        assert forall|i: int| 0 <= i < rows.len() implies statuses(rows).contains_key(
            (#[trigger] rows[i]).number,
        ) && statuses(rows)[rows[i].number] == rows[i].status by {
            if i < rows.len() - 1 {
                assert(t[i] == rows[i]);
                assert(rows[i].number != last.number);
            }
        }
        assert forall|n: i64| #[trigger] statuses(rows).contains_key(n) implies exists|i: int|
            0 <= i < rows.len() && (#[trigger] rows[i]).number == n by {
            if n == last.number {
                assert(rows[rows.len() - 1].number == n);
            } else {
                assert(statuses(t).contains_key(n));
                let i = choose|i: int| 0 <= i < t.len() && (#[trigger] t[i]).number == n;
                assert(rows[i].number == n);
            }
        }
    }
}

/// The same rows in another order are the same to the bell.
pub proof fn reordering_is_silent(rows: Seq<PrRowView>, other: Seq<PrRowView>)
    requires
        one_row_each(rows),
        one_row_each(other),
        forall|r: PrRowView| #[trigger] rows.contains(r) <==> other.contains(r),
    ensures
        statuses(rows) == statuses(other),
{
    statuses_are_those_of_the_rows(rows);
    statuses_are_those_of_the_rows(other);
    assert forall|n: i64| statuses(rows).contains_key(n) implies statuses(other).contains_key(n)
        && statuses(other)[n] == statuses(rows)[n] by {
        let i = choose|i: int| 0 <= i < rows.len() && (#[trigger] rows[i]).number == n;
        assert(rows.contains(rows[i]));
        let j = choose|j: int| 0 <= j < other.len() && other[j] == rows[i];
        assert(other[j].number == n);
    }
    assert forall|n: i64| statuses(other).contains_key(n) implies statuses(rows).contains_key(
        n,
    ) by {
        let i = choose|i: int| 0 <= i < other.len() && (#[trigger] other[i]).number == n;
        assert(other.contains(other[i]));
        assert(rows.contains(other[i]));
        let j = choose|j: int| 0 <= j < rows.len() && rows[j] == other[i];
        assert(rows[j].number == n);
    }
    assert(statuses(rows) =~= statuses(other));
}

/// A pull request counts as newly merged exactly when one of the rows is of it
/// and none of the rows before was.
pub proof fn numbers_are_those_of_the_rows(rows: Seq<MergedRowView>, n: i64)
    ensures
        numbers(rows).contains(n) <==> exists|i: int|
            0 <= i < rows.len() && (#[trigger] rows[i]).number == n,
    decreases rows.len(),
{
    if rows.len() > 0 {
        let t = rows.drop_last();
        numbers_are_those_of_the_rows(t, n);
        if rows.last().number == n {
            assert(rows[rows.len() - 1].number == n);
        }
        if numbers(t).contains(n) {
            let i = choose|i: int| 0 <= i < t.len() && (#[trigger] t[i]).number == n;
            assert(rows[i].number == n);
        }
        if (exists|i: int| 0 <= i < rows.len() && (#[trigger] rows[i]).number == n)
            && rows.last().number != n {
            let i = choose|i: int| 0 <= i < rows.len() && (#[trigger] rows[i]).number == n;
            assert(t[i].number == n);
        }
    }
}

proof fn the_last_row_counts(rows: Seq<PrRowView>, i: int)
    requires
        0 <= i < rows.len(),
        forall|k: int| i < k < rows.len() ==> (#[trigger] rows[k]).number != rows[i].number,
    ensures
        statuses(rows).contains_key(rows[i].number),
        statuses(rows)[rows[i].number] == rows[i].status,
    decreases rows.len(),
{
    let t = rows.drop_last();
    if i < rows.len() - 1 {
        assert(rows[rows.len() - 1].number != rows[i].number);
        assert forall|k: int| i < k < t.len() implies (#[trigger] t[k]).number != t[i].number by {
            assert(rows[k].number != rows[i].number);
        }
        the_last_row_counts(t, i);
    }
}

proof fn without_a_row_there_is_no_status(rows: Seq<PrRowView>, n: i64)
    requires
        forall|i: int| 0 <= i < rows.len() ==> (#[trigger] rows[i]).number != n,
    ensures
        !statuses(rows).contains_key(n),
    decreases rows.len(),
{
    if rows.len() > 0 {
        let t = rows.drop_last();
        assert(rows[rows.len() - 1].number != n);
        assert forall|i: int| 0 <= i < t.len() implies (#[trigger] t[i]).number != n by {
            assert(rows[i].number != n);
        }
        without_a_row_there_is_no_status(t, n);
    }
}

/// The bell speaks exactly of the rows whose status is another than before: of a
/// pull request with a row in both refreshes, `i` now and `j` before, the last of
/// its number in each, the status counts as changed if and only if the two rows
/// have different statuses, whatever these are.
pub proof fn a_changed_status_is_noticed(
    now: TrackerView,
    prev: TrackerView,
    rows: Seq<PrRowView>,
    before: Seq<PrRowView>,
    i: int,
    j: int,
)
    requires
        now.open_status == statuses(rows),
        prev.open_status == statuses(before),
        0 <= i < rows.len(),
        0 <= j < before.len(),
        rows[i].number == before[j].number,
        forall|k: int| i < k < rows.len() ==> (#[trigger] rows[k]).number != rows[i].number,
        forall|k: int| j < k < before.len() ==> (#[trigger] before[k]).number != before[j].number,
    ensures
        status_differs(now, prev, rows[i].number) <==> rows[i].status != before[j].status,
{
    the_last_row_counts(rows, i);
    the_last_row_counts(before, j);
}

/// A pull request without a row in one of the refreshes has no changed status.
pub proof fn only_rows_in_both_refreshes_change(
    now: TrackerView,
    prev: TrackerView,
    rows: Seq<PrRowView>,
    before: Seq<PrRowView>,
    n: i64,
)
    requires
        now.open_status == statuses(rows),
        prev.open_status == statuses(before),
        (forall|i: int| 0 <= i < rows.len() ==> (#[trigger] rows[i]).number != n) || (forall|i: int|
            0 <= i < before.len() ==> (#[trigger] before[i]).number != n),
    ensures
        !status_differs(now, prev, n),
{
    if forall|i: int| 0 <= i < rows.len() ==> (#[trigger] rows[i]).number != n {
        without_a_row_there_is_no_status(rows, n);
    } else {
        without_a_row_there_is_no_status(before, n);
    }
}

/// A merge is noticed: a pull request counts as newly merged if and only if a row
/// of the merged ones is of it now and none was before.
pub proof fn a_merge_is_noticed(
    now: TrackerView,
    prev: TrackerView,
    rows: Seq<MergedRowView>,
    before: Seq<MergedRowView>,
    n: i64,
)
    requires
        now.merged == numbers(rows),
        prev.merged == numbers(before),
    ensures
        newly(now, prev, n) <==> (exists|i: int|
            0 <= i < rows.len() && (#[trigger] rows[i]).number == n) && forall|i: int|
            0 <= i < before.len() ==> (#[trigger] before[i]).number != n,
{
    numbers_are_those_of_the_rows(rows, n);
    numbers_are_those_of_the_rows(before, n);
}

/// There is something to ring for exactly when a number is in one of the two sets.
pub proof fn any_change_is_something(c: Changes, n: i64)
    ensures
        !something(c) ==> !c.status_changed@.contains(n) && !c.newly_merged@.contains(n),
        (forall|k: i64| !c.status_changed@.contains(k)) && (forall|k: i64|
            !c.newly_merged@.contains(k)) ==> !something(c),
{
    if !c.status_changed@.contains(n) && c.newly_merged@.contains(n) {
        assert(exists|k: i64| #[trigger]
            c.status_changed@.contains(k) || c.newly_merged@.contains(k));
    }
}

/// What telling two refreshes apart gives, by their rows: of a pull request with a
/// row in both, `i` now and `j` before, the last of its number in each, the status
/// is told as changed if and only if the two rows have different statuses.
pub proof fn each_changed_status_is_told(
    open: &[PrRow],
    merged: Option<&[MergedRow]>,
    open_before: &[PrRow],
    merged_before: Option<&[MergedRow]>,
    now: Tracker,
    prev: Tracker,
    c: Changes,
    i: int,
    j: int,
)
    requires
        call_ensures(Tracker::build, (Some(open), merged), now),
        call_ensures(Tracker::build, (Some(open_before), merged_before), prev),
        call_ensures(Tracker::diff, (&now, &prev), c),
        0 <= i < open@.len(),
        0 <= j < open_before@.len(),
        open@[i].number == open_before@[j].number,
        forall|k: int| i < k < open@.len() ==> (#[trigger] open@[k]).number != open@[i].number,
        forall|k: int|
            j < k < open_before@.len() ==> (#[trigger] open_before@[k]).number
                != open_before@[j].number,
    ensures
        c.status_changed@.contains(open@[i].number) <==> open@[i].status != open_before@[j].status,
{
    let rows = rows_view(open@);
    let before = rows_view(open_before@);
    assert forall|k: int| i < k < rows.len() implies (#[trigger] rows[k]).number
        != rows[i].number by {
        assert(open@[k].number != open@[i].number);
    }
    assert forall|k: int| j < k < before.len() implies (#[trigger] before[k]).number
        != before[j].number by {
        assert(open_before@[k].number != open_before@[j].number);
    }
    a_changed_status_is_noticed(now@, prev@, rows, before, i, j);
    assert(c.status_changed@.contains(open@[i].number) <==> status_differs(
        now@,
        prev@,
        open@[i].number,
    ));
}

/// What telling two refreshes apart gives of merges: a pull request is told as
/// newly merged if and only if it has a row among the merged ones now and had none
/// before; and there is something to ring for exactly if there is any change.
pub proof fn each_merge_is_told(
    open: Option<&[PrRow]>,
    merged: &[MergedRow],
    open_before: Option<&[PrRow]>,
    merged_before: &[MergedRow],
    now: Tracker,
    prev: Tracker,
    c: Changes,
    ring: bool,
    n: i64,
)
    requires
        call_ensures(Tracker::build, (open, Some(merged)), now),
        call_ensures(Tracker::build, (open_before, Some(merged_before)), prev),
        call_ensures(Tracker::diff, (&now, &prev), c),
        call_ensures(Changes::any, (&c,), ring),
    ensures
        c.newly_merged@.contains(n) <==> (exists|i: int|
            0 <= i < merged@.len() && (#[trigger] merged@[i]).number == n) && forall|i: int|
            0 <= i < merged_before@.len() ==> (#[trigger] merged_before@[i]).number != n,
        c.newly_merged@.contains(n) || c.status_changed@.contains(n) ==> ring,
        (forall|k: i64| !c.status_changed@.contains(k)) && (forall|k: i64|
            !c.newly_merged@.contains(k)) ==> !ring,
{
    let rows = rows_view(merged@);
    let before = rows_view(merged_before@);
    a_merge_is_noticed(now@, prev@, rows, before, n);
    any_change_is_something(c, n);
    assert(c.newly_merged@.contains(n) <==> newly(now@, prev@, n));
    if exists|i: int| 0 <= i < merged@.len() && (#[trigger] merged@[i]).number == n {
        let i = choose|i: int| 0 <= i < merged@.len() && (#[trigger] merged@[i]).number == n;
        assert(rows[i].number == n);
    }
    if exists|i: int| 0 <= i < rows.len() && (#[trigger] rows[i]).number == n {
        let i = choose|i: int| 0 <= i < rows.len() && (#[trigger] rows[i]).number == n;
        assert(merged@[i].number == n);
    }
    assert forall|i: int| 0 <= i < merged_before@.len() implies (
    #[trigger] merged_before@[i]).number == before[i].number by {}
    assert forall|i: int| 0 <= i < before.len() implies (#[trigger] before[i]).number
        == merged_before@[i].number by {}
}

} // verus!
