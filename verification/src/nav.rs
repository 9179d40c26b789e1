//! Row navigation: which rows can be selected, in the order they are painted,
//! how the selection moves, and which rows a search leaves.

use crate::cli::Pane;
use crate::commits::{CommitStats, StatsView};
use crate::layout::{listed, Visibility};
use crate::merged::{capped, MergedRow, MergedRowView};
use crate::order::{rows_view, rows_view_push};
use crate::prs::{without_queued, PrRow, PrRowView};
use crate::queue::{visible, QueueRow, QueueRowView};
use crate::reviews::{ReviewRow, ReviewRowView, ReviewedMergedRow, ReviewedMergedView};
use crate::sections::{opt_rows, Sections, SectionsView};
use crate::term::Wait;
use crate::text::{
    dec_signed, decimal_signed, has_inside, lower_chars, lowered, occurs, same, views,
};
use vstd::prelude::*;

verus! {

/// A row with a page to open.
pub trait Linked: View + Sized {
    /// The page of the row.
    spec fn url_of(v: Self::V) -> Seq<char>;

    fn url(&self) -> (r: &str)
        ensures
            r@ == Self::url_of(self@),
    ;
}

/// A row that a search can find.
pub trait Searchable: View + Sized {
    /// Whether a query finds the row.
    spec fn found(v: Self::V, query: Seq<char>) -> bool;

    fn is_found(&self, query: &str) -> (r: bool)
        ensures
            r == Self::found(self@, query@),
    ;

    fn copy(&self) -> (r: Self)
        ensures
            r@ == self@,
    ;
}

/// Whether a text has the query in it, in upper or lower case.
pub open spec fn mentions(text: Seq<char>, query: Seq<char>) -> bool {
    occurs(lowered(text), lowered(query))
}

/// Whether a pull request is found by its title or its number.
pub open spec fn found_by(title: Seq<char>, number: i64, query: Seq<char>) -> bool {
    mentions(title, query) || mentions("#"@ + dec_signed(number as int), query)
}

fn says(text: &str, query: &str) -> (r: bool)
    ensures
        r == mentions(text@, query@),
{
    let t = lower_chars(text);
    let q = lower_chars(query);
    has_inside(&t, &q)
}

fn names(title: &str, number: i64, query: &str) -> (r: bool)
    ensures
        r == found_by(title@, number, query@),
{
    let mut tag = "#".to_string();
    let n = decimal_signed(number);
    tag.append(n.as_str());
    says(title, query) || says(tag.as_str(), query)
}

impl Linked for PrRow {
    open spec fn url_of(v: PrRowView) -> Seq<char> {
        v.url
    }

    fn url(&self) -> (r: &str) {
        self.url.as_str()
    }
}

impl Searchable for PrRow {
    open spec fn found(v: PrRowView, query: Seq<char>) -> bool {
        found_by(v.title, v.number, query)
    }

    fn is_found(&self, query: &str) -> (r: bool) {
        names(self.title.as_str(), self.number, query)
    }

    fn copy(&self) -> (r: Self) {
        self.clone()
    }
}

impl Linked for QueueRow {
    open spec fn url_of(v: QueueRowView) -> Seq<char> {
        v.url
    }

    fn url(&self) -> (r: &str) {
        self.url.as_str()
    }
}

impl Searchable for QueueRow {
    open spec fn found(v: QueueRowView, query: Seq<char>) -> bool {
        found_by(v.title, v.number, query) || mentions(v.author, query)
    }

    fn is_found(&self, query: &str) -> (r: bool) {
        names(self.title.as_str(), self.number, query) || says(self.author.as_str(), query)
    }

    fn copy(&self) -> (r: Self) {
        self.clone()
    }
}

impl Linked for MergedRow {
    open spec fn url_of(v: MergedRowView) -> Seq<char> {
        v.url
    }

    fn url(&self) -> (r: &str) {
        self.url.as_str()
    }
}

impl Searchable for MergedRow {
    open spec fn found(v: MergedRowView, query: Seq<char>) -> bool {
        found_by(v.title, v.number, query)
    }

    fn is_found(&self, query: &str) -> (r: bool) {
        names(self.title.as_str(), self.number, query)
    }

    fn copy(&self) -> (r: Self) {
        self.clone()
    }
}

impl Linked for ReviewRow {
    open spec fn url_of(v: ReviewRowView) -> Seq<char> {
        v.url
    }

    fn url(&self) -> (r: &str) {
        self.url.as_str()
    }
}

impl Searchable for ReviewRow {
    open spec fn found(v: ReviewRowView, query: Seq<char>) -> bool {
        found_by(v.title, v.number, query) || mentions(v.author, query)
    }

    fn is_found(&self, query: &str) -> (r: bool) {
        names(self.title.as_str(), self.number, query) || says(self.author.as_str(), query)
    }

    fn copy(&self) -> (r: Self) {
        self.clone()
    }
}

impl Linked for ReviewedMergedRow {
    open spec fn url_of(v: ReviewedMergedView) -> Seq<char> {
        v.url
    }

    fn url(&self) -> (r: &str) {
        self.url.as_str()
    }
}

impl Searchable for ReviewedMergedRow {
    open spec fn found(v: ReviewedMergedView, query: Seq<char>) -> bool {
        found_by(v.title, v.number, query) || mentions(v.author, query)
    }

    fn is_found(&self, query: &str) -> (r: bool) {
        names(self.title.as_str(), self.number, query) || says(self.author.as_str(), query)
    }

    fn copy(&self) -> (r: Self) {
        self.clone()
    }
}

// ---------------------------------------------------------------------------
// Searching
// ---------------------------------------------------------------------------

/// The rows that a query finds, in their order.
pub open spec fn hits<T: Searchable>(rows: Seq<T::V>, query: Seq<char>) -> Seq<T::V>
    decreases rows.len(),
{
    if rows.len() == 0 {
        rows
    } else if T::found(rows.last(), query) {
        hits::<T>(rows.drop_last(), query).push(rows.last())
    } else {
        hits::<T>(rows.drop_last(), query)
    }
}

/// The rows of a section that a query finds.
pub open spec fn opt_hits<T: Searchable>(rows: Option<Seq<T::V>>, query: Seq<char>) -> Option<
    Seq<T::V>,
> {
    match rows {
        Some(r) => Some(hits::<T>(r, query)),
        None => None,
    }
}

/// The sections with only the rows that a query finds; what is not made of rows
/// stays.
pub open spec fn filtered(s: SectionsView, query: Seq<char>) -> SectionsView {
    SectionsView {
        merged: opt_hits::<MergedRow>(s.merged, query),
        queue: opt_hits::<QueueRow>(s.queue, query),
        queue_next_eta: s.queue_next_eta,
        prs: opt_hits::<PrRow>(s.prs, query),
        commits: s.commits,
        reviews: opt_hits::<ReviewRow>(s.reviews, query),
        reviewed_merged: opt_hits::<ReviewedMergedRow>(s.reviewed_merged, query),
    }
}

fn search_rows<T: Searchable>(rows: &Vec<T>, query: &str) -> (r: Vec<T>)
    ensures
        rows_view(r@) == hits::<T>(rows_view(rows@), query@),
{
    let mut out: Vec<T> = Vec::new();
    let ghost all = rows_view(rows@);
    let mut i: usize = 0;
    proof {
        assert(all.take(0) =~= rows_view(out@));
    }
    while i < rows.len()
        invariant
            i <= rows@.len(),
            all == rows_view(rows@),
            rows_view(out@) == hits::<T>(all.take(i as int), query@),
        decreases rows@.len() - i,
    {
        proof {
            assert(all.take(i + 1).drop_last() =~= all.take(i as int));
        }
        if rows[i].is_found(query) {
            let row = rows[i].copy();
            proof {
                rows_view_push(out@, row);
            }
            out.push(row);
        }
        i += 1;
    }
    proof {
        assert(all.take(i as int) =~= all);
    }
    out
}

fn search_section<T: Searchable>(rows: &Option<Vec<T>>, query: &str) -> (r: Option<Vec<T>>)
    ensures
        opt_rows(r) == opt_hits::<T>(opt_rows(*rows), query@),
{
    match rows {
        Some(v) => Some(search_rows(v, query)),
        None => None,
    }
}

/// Keep the rows that a query finds by title, number or author.
pub fn filter(s: &Sections, query: &str) -> (r: Sections)
    ensures
        r@ == filtered(s@, query@),
{
    Sections {
        merged: search_section(&s.merged, query),
        queue: search_section(&s.queue, query),
        queue_next_eta: s.queue_next_eta,
        prs: search_section(&s.prs, query),
        commits: match &s.commits {
            Some(c) => Some(c.clone()),
            None => None,
        },
        reviews: search_section(&s.reviews, query),
        reviewed_merged: search_section(&s.reviewed_merged, query),
    }
}

proof fn finding_all_keeps_all<T: Searchable>(rows: Seq<T::V>, query: Seq<char>)
    requires
        forall|v: T::V| #[trigger] T::found(v, query),
    ensures
        hits::<T>(rows, query) == rows,
    decreases rows.len(),
{
    if rows.len() > 0 {
        finding_all_keeps_all::<T>(rows.drop_last(), query);
        assert(rows.drop_last().push(rows.last()) =~= rows);
    }
}

/// An empty query leaves the sections as they are.
pub proof fn an_empty_query_leaves_everything(s: SectionsView)
    ensures
        filtered(s, Seq::empty()) == s,
{
    let q = Seq::<char>::empty();
    assert forall|title: Seq<char>, number: i64| #[trigger] found_by(title, number, q) by {
        anything_mentions_nothing(title);
    }
    if s.merged is Some {
        finding_all_keeps_all::<MergedRow>(s.merged->0, q);
    }
    if s.queue is Some {
        finding_all_keeps_all::<QueueRow>(s.queue->0, q);
    }
    if s.prs is Some {
        finding_all_keeps_all::<PrRow>(s.prs->0, q);
    }
    if s.reviews is Some {
        finding_all_keeps_all::<ReviewRow>(s.reviews->0, q);
    }
    if s.reviewed_merged is Some {
        finding_all_keeps_all::<ReviewedMergedRow>(s.reviewed_merged->0, q);
    }
    assert(filtered(s, q) =~= s);
}

/// Any text has the empty query in it.
proof fn anything_mentions_nothing(text: Seq<char>)
    ensures
        mentions(text, Seq::empty()),
{
    let t = lowered(text);
    let q = lowered(Seq::empty());
    assert(t.subrange(0, 0) =~= q);
    assert(crate::text::occurs_at(t, q, 0));
}

/// A search leaves exactly the rows that it finds.
pub proof fn a_search_leaves_what_it_finds<T: Searchable>(
    rows: Seq<T::V>,
    query: Seq<char>,
    v: T::V,
)
    ensures
        hits::<T>(rows, query).contains(v) <==> rows.contains(v) && T::found(v, query),
    decreases rows.len(),
{
    if rows.len() > 0 {
        let t = rows.drop_last();
        a_search_leaves_what_it_finds::<T>(t, query, v);
        let h = hits::<T>(t, query);
        assert(rows.contains(v) <==> t.contains(v) || v == rows.last()) by {
            if t.contains(v) {
                let i = choose|i: int| 0 <= i < t.len() && t[i] == v;
                assert(rows[i] == v);
            }
            if v == rows.last() {
                assert(rows[rows.len() - 1] == v);
            }
            if rows.contains(v) && v != rows.last() {
                let i = choose|i: int| 0 <= i < rows.len() && rows[i] == v;
                assert(t[i] == v);
            }
        }
        assert(h.push(rows.last()).contains(v) <==> h.contains(v) || v == rows.last()) by {
            if h.contains(v) {
                let i = choose|i: int| 0 <= i < h.len() && h[i] == v;
                assert(h.push(rows.last())[i] == v);
            }
            assert(h.push(rows.last())[h.len() as int] == rows.last());
        }
    }
}

// ---------------------------------------------------------------------------
// Targets
// ---------------------------------------------------------------------------

/// The pages of rows.
pub open spec fn links<T: Linked>(rows: Seq<T::V>) -> Seq<Seq<char>> {
    Seq::new(rows.len(), |i: int| T::url_of(rows[i]))
}

/// The pages of the rows of a section.
pub open spec fn opt_links<T: Linked>(rows: Option<Seq<T::V>>) -> Seq<Seq<char>> {
    match rows {
        Some(r) => links::<T>(r),
        None => Seq::empty(),
    }
}

/// The pages of the shipments: that of the upcoming version, if there is one,
/// and those of the releases. Without counts there are none.
pub open spec fn shipment_links(stats: Option<StatsView>) -> Seq<Seq<char>> {
    match stats {
        Some(c) => if c.available {
            (match c.upcoming {
                Some(b) => seq![b.url],
                None => Seq::empty(),
            }) + Seq::new(c.releases.len(), |i: int| c.releases[i].bucket.url)
        } else {
            Seq::empty()
        },
        None => Seq::empty(),
    }
}

/// The pages of every row of a view, in the order of the sections.
pub open spec fn targets_of(view: Pane, s: SectionsView) -> Seq<Seq<char>> {
    match view {
        Pane::Mine => opt_links::<PrRow>(s.prs) + opt_links::<QueueRow>(s.queue) + opt_links::<
            MergedRow,
        >(s.merged) + shipment_links(s.commits),
        Pane::Reviews => opt_links::<ReviewRow>(s.reviews) + opt_links::<ReviewedMergedRow>(
            s.reviewed_merged,
        ),
    }
}

/// The pages of the sections of a view as they are shown, section by section:
/// queued pull requests are left to the queue, and only the shown rows of the
/// queue and of the merged count. A search does not look at the shipments.
pub open spec fn shown_links(view: Pane, s: SectionsView, query: Seq<char>, v: Visibility) -> Seq<
    Seq<Seq<char>>,
> {
    match view {
        Pane::Mine => seq![
            if v.prs {
                links::<PrRow>(listed(s, v))
            } else {
                Seq::empty()
            },
            match (s.queue, v.queue) {
                (Some(rows), Some(mode)) => links::<QueueRow>(visible(rows, mode)),
                _ => Seq::empty(),
            },
            match (s.merged, v.merged) {
                (Some(rows), Some(n)) => links::<MergedRow>(capped(rows, n as nat)),
                _ => Seq::empty(),
            },
            if v.shipments && query.len() == 0 {
                shipment_links(s.commits)
            } else {
                Seq::empty()
            },
        ],
        Pane::Reviews => seq![
            if v.reviews {
                opt_links::<ReviewRow>(s.reviews)
            } else {
                Seq::empty()
            },
            if v.reviewed_merged {
                opt_links::<ReviewedMergedRow>(s.reviewed_merged)
            } else {
                Seq::empty()
            },
        ],
    }
}

/// Lists one after the other.
pub open spec fn joined(lists: Seq<Seq<Seq<char>>>) -> Seq<Seq<char>>
    decreases lists.len(),
{
    if lists.len() == 0 {
        Seq::empty()
    } else {
        joined(lists.drop_last()) + lists.last()
    }
}

/// The pages of every row that is shown and can be selected, in order.
pub open spec fn shown_targets(view: Pane, s: SectionsView, query: Seq<char>, v: Visibility) -> Seq<
    Seq<char>,
> {
    joined(shown_links(view, s, query, v))
}

fn urls<T: Linked>(rows: &[T]) -> (r: Vec<String>)
    ensures
        views(r@) == links::<T>(rows_view(rows@)),
{
    let mut out: Vec<String> = Vec::new();
    let mut i: usize = 0;
    while i < rows.len()
        invariant
            i <= rows@.len(),
            views(out@) =~= links::<T>(rows_view(rows@)).take(i as int),
        decreases rows@.len() - i,
    {
        let u = rows[i].url().to_string();
        proof {
            assert(views(out@.push(u)) =~= views(out@).push(u@));
        }
        out.push(u);
        i += 1;
    }
    proof {
        assert(views(out@) =~= links::<T>(rows_view(rows@)));
    }
    out
}

fn opt_urls<T: Linked>(rows: &Option<Vec<T>>) -> (r: Vec<String>)
    ensures
        views(r@) == opt_links::<T>(opt_rows(*rows)),
{
    match rows {
        Some(v) => urls(v.as_slice()),
        None => no_urls(),
    }
}

fn no_urls() -> (r: Vec<String>)
    ensures
        views(r@) == Seq::<Seq<char>>::empty(),
{
    let r: Vec<String> = Vec::new();
    assert(views(r@) =~= Seq::<Seq<char>>::empty());
    r
}

fn shipment_urls(stats: &Option<CommitStats>) -> (r: Vec<String>)
    ensures
        views(r@) == shipment_links(
            match *stats {
                Some(c) => Some(c@),
                None => None,
            },
        ),
{
    let mut out = no_urls();
    if let Some(c) = stats {
        if c.available {
            if let Some(b) = &c.upcoming {
                let u = b.url.clone();
                proof {
                    assert(views(out@.push(u)) =~= seq![u@]);
                }
                out.push(u);
            }
            let ghost head = views(out@);
            let mut i: usize = 0;
            proof {
                assert(head + Seq::<Seq<char>>::empty() =~= head);
            }
            while i < c.releases.len()
                invariant
                    i <= c.releases@.len(),
                    views(out@) =~= head + Seq::new(
                        i as nat,
                        |k: int| rows_view(c.releases@)[k].bucket.url,
                    ),
                decreases c.releases@.len() - i,
            {
                let u = c.releases[i].bucket.url.clone();
                proof {
                    assert(views(out@.push(u)) =~= views(out@).push(u@));
                    assert(rows_view(c.releases@)[i as int].bucket.url == u@);
                }
                out.push(u);
                i += 1;
            }
            proof {
                assert(views(out@) =~= shipment_links(Some(c@)));
            }
        }
    }
    out
}

fn append_urls(out: &mut Vec<String>, more: Vec<String>)
    ensures
        views(final(out)@) == views(old(out)@) + views(more@),
{
    let ghost head = views(out@);
    let mut i: usize = 0;
    proof {
        assert(head + views(more@).take(0) =~= head);
    }
    while i < more.len()
        invariant
            i <= more@.len(),
            views(out@) == head + views(more@).take(i as int),
        decreases more@.len() - i,
    {
        let u = more[i].clone();
        proof {
            assert(views(out@.push(u)) =~= views(out@).push(u@));
            assert(views(more@)[i as int] == u@);
            assert((head + views(more@).take(i as int)).push(u@) =~= head + views(more@).take(
                i + 1,
            ));
        }
        out.push(u);
        i += 1;
    }
    proof {
        assert(views(more@).take(i as int) =~= views(more@));
    }
}

/// The page of every row of a view, in the order of the sections. The upcoming
/// version counts only if it has a page.
pub fn targets(view: Pane, s: &Sections) -> (r: Vec<String>)
    ensures
        views(r@) == targets_of(view, s@),
{
    match view {
        Pane::Mine => {
            let mut out = opt_urls(&s.prs);
            append_urls(&mut out, opt_urls(&s.queue));
            append_urls(&mut out, opt_urls(&s.merged));
            append_urls(&mut out, shipment_urls(&s.commits));
            out
        },
        Pane::Reviews => {
            let mut out = opt_urls(&s.reviews);
            append_urls(&mut out, opt_urls(&s.reviewed_merged));
            out
        },
    }
}

/// Lists of pages as lists of texts.
pub open spec fn lists_view(lists: Seq<Vec<String>>) -> Seq<Seq<Seq<char>>> {
    Seq::new(lists.len(), |i: int| views(lists[i]@))
}

fn section_lists(view: Pane, s: &Sections, query: &str, v: Visibility) -> (r: Vec<Vec<String>>)
    ensures
        lists_view(r@) == shown_links(view, s@, query@, v),
{
    let mut out: Vec<Vec<String>> = Vec::new();
    match view {
        Pane::Mine => {
            let prs = match &s.prs {
                Some(rows) => if !v.prs {
                    no_urls()
                } else if v.queue.is_some() {
                    let kept = without_queued(copy_rows(rows));
                    urls(kept.as_slice())
                } else {
                    urls(rows.as_slice())
                },
                None => no_urls(),
            };
            proof {
                if s.prs is None {
                    assert(links::<PrRow>(listed(s@, v)) =~= Seq::<Seq<char>>::empty());
                }
            }
            out.push(prs);
            let queue = match (&s.queue, v.queue) {
                (Some(rows), Some(mode)) => {
                    let kept = mode.rows(rows.as_slice());
                    urls(kept.as_slice())
                },
                _ => no_urls(),
            };
            out.push(queue);
            let merged = match (&s.merged, v.merged) {
                (Some(rows), Some(n)) => {
                    let mut kept = urls(rows.as_slice());
                    let ghost all = views(kept@);
                    kept.truncate(n);
                    proof {
                        let capped_rows = capped(rows_view(rows@), n as nat);
                        assert(views(kept@) =~= links::<MergedRow>(capped_rows)) by {
                            assert forall|i: int| 0 <= i < capped_rows.len() implies views(kept@)[i]
                                == links::<MergedRow>(capped_rows)[i] by {
                                assert(all[i] == views(kept@)[i]);
                                assert(all[i] == links::<MergedRow>(rows_view(rows@))[i]);
                            }
                        }
                    }
                    kept
                },
                _ => no_urls(),
            };
            out.push(merged);
            let idle = has_no_text(query);
            let ship = if v.shipments && idle {
                shipment_urls(&s.commits)
            } else {
                no_urls()
            };
            out.push(ship);
        },
        Pane::Reviews => {
            let open = if v.reviews {
                opt_urls(&s.reviews)
            } else {
                no_urls()
            };
            out.push(open);
            let merged = if v.reviewed_merged {
                opt_urls(&s.reviewed_merged)
            } else {
                no_urls()
            };
            out.push(merged);
        },
    }
    proof {
        assert(lists_view(out@) =~= shown_links(view, s@, query@, v));
    }
    out
}

fn has_no_text(s: &str) -> (r: bool)
    ensures
        r == (s@.len() == 0),
{
    proof {
        reveal_strlit("");
        assert(s@.len() == 0 ==> s@ =~= ""@);
    }
    same(s, "")
}

/// Copy the rows of the open pull requests.
pub fn copy_rows(rows: &Vec<PrRow>) -> (r: Vec<PrRow>)
    ensures
        rows_view(r@) == rows_view(rows@),
{
    let mut out: Vec<PrRow> = Vec::new();
    let mut i: usize = 0;
    while i < rows.len()
        invariant
            i <= rows@.len(),
            rows_view(out@) =~= rows_view(rows@).take(i as int),
        decreases rows@.len() - i,
    {
        let row = rows[i].clone();
        proof {
            rows_view_push(out@, row);
        }
        out.push(row);
        i += 1;
    }
    proof {
        assert(rows_view(out@) =~= rows_view(rows@));
    }
    out
}

/// The page of every row that is shown and can be selected, in the order the
/// rows are painted, so that a selection lines up with them.
pub fn targets_visible(view: Pane, s: &Sections, query: &str, v: Visibility) -> (r: Vec<String>)
    ensures
        views(r@) == shown_targets(view, s@, query@, v),
{
    let lists = section_lists(view, s, query, v);
    let ghost all = lists_view(lists@);
    let mut out = no_urls();
    let mut i: usize = 0;
    proof {
        assert(all.take(0) =~= Seq::empty());
    }
    while i < lists.len()
        invariant
            i <= lists@.len(),
            all == lists_view(lists@),
            views(out@) == joined(all.take(i as int)),
        decreases lists@.len() - i,
    {
        let more = copy_urls(&lists[i]);
        proof {
            assert(all.take(i + 1).drop_last() =~= all.take(i as int));
            assert(all[i as int] == views(more@));
        }
        append_urls(&mut out, more);
        i += 1;
    }
    proof {
        assert(all.take(i as int) =~= all);
    }
    out
}

fn copy_urls(urls: &Vec<String>) -> (r: Vec<String>)
    ensures
        views(r@) == views(urls@),
{
    let mut out = no_urls();
    let mut i: usize = 0;
    while i < urls.len()
        invariant
            i <= urls@.len(),
            views(out@) =~= views(urls@).take(i as int),
        decreases urls@.len() - i,
    {
        let u = urls[i].clone();
        proof {
            assert(views(out@.push(u)) =~= views(out@).push(u@));
        }
        out.push(u);
        i += 1;
    }
    proof {
        assert(views(out@) =~= views(urls@));
    }
    out
}

/// Where a page first stands in a list, or the length of the list.
pub open spec fn position(list: Seq<Seq<char>>, url: Seq<char>) -> nat
    decreases list.len(),
{
    if list.len() == 0 || list[0] == url {
        0
    } else {
        1 + position(list.drop_first(), url)
    }
}

/// Where a page first stands in a list.
pub fn find_url(all: &Vec<String>, url: &str) -> (r: Option<usize>)
    ensures
        r is Some <==> views(all@).contains(url@),
        r matches Some(i) ==> i == position(views(all@), url@),
{
    let ghost list = views(all@);
    let mut i: usize = 0;
    proof {
        assert(list.skip(0) =~= list);
    }
    while i < all.len()
        invariant
            i <= all@.len(),
            list == views(all@),
            position(list, url@) == i + position(list.skip(i as int), url@),
            forall|k: int| 0 <= k < i ==> list[k] != url@,
        decreases all@.len() - i,
    {
        assert(list[i as int] == all@[i as int]@);
        assert(list.skip(i as int)[0] == list[i as int]);
        if same(all[i].as_str(), url) {
            assert(list.contains(url@));
            return Some(i);
        }
        proof {
            assert(list.skip(i as int).drop_first() =~= list.skip(i + 1));
        }
        i += 1;
    }
    None
}

/// The selection for a page, if a row with it is shown.
pub fn target_index(view: Pane, s: &Sections, query: &str, v: Visibility, url: &str) -> (r: Option<
    usize,
>)
    ensures
        r is Some <==> shown_targets(view, s@, query@, v).contains(url@),
        r matches Some(i) ==> i == position(shown_targets(view, s@, query@, v), url@),
{
    let all = targets_visible(view, s, query, v);
    find_url(&all, url)
}

/// The list that holds a position of all of them one after the other, counting
/// from list `n` on; none when the position is behind the last.
pub open spec fn list_at(lists: Seq<Seq<Seq<char>>>, index: int, n: int) -> Seq<Seq<char>>
    decreases lists.len() - n,
{
    if n >= lists.len() || n < 0 {
        Seq::empty()
    } else if index < lists[n].len() {
        lists[n]
    } else {
        list_at(lists, index - lists[n].len(), n + 1)
    }
}

/// The pages of the section that a selection is in. The first row stands for no
/// selection, so without one that is the first section with rows.
pub fn section_at_visible(view: Pane, s: &Sections, query: &str, index: usize, v: Visibility) -> (r:
    Vec<String>)
    ensures
        views(r@) == list_at(shown_links(view, s@, query@, v), index as int, 0),
{
    let lists = section_lists(view, s, query, v);
    let ghost all = lists_view(lists@);
    let mut left: usize = index;
    let mut i: usize = 0;
    while i < lists.len()
        invariant
            i <= lists@.len(),
            all == lists_view(lists@),
            all == shown_links(view, s@, query@, v),
            list_at(all, index as int, 0) == list_at(all, left as int, i as int),
        decreases lists@.len() - i,
    {
        assert(all[i as int].len() == lists@[i as int]@.len());
        if left < lists[i].len() {
            return copy_urls(&lists[i]);
        }
        left = left - lists[i].len();
        i += 1;
    }
    no_urls()
}

// ---------------------------------------------------------------------------
// Movement
// ---------------------------------------------------------------------------

/// The selection after a movement, in a list of `len` rows. From no selection
/// any movement enters at the top, but for the one to the bottom. What is no
/// movement leaves the selection.
pub open spec fn moved_to(action: Wait, sel: Option<usize>, len: int, half: int) -> Option<int> {
    let step = if half < 1 {
        1
    } else {
        half
    };
    let up = |n: int| match sel {
        Some(i) => if i - n < 0 {
            0
        } else {
            i - n
        },
        None => 0,
    };
    let down = |n: int| match sel {
        Some(i) => if i + n > len - 1 {
            len - 1
        } else {
            i + n
        },
        None => 0,
    };
    if len == 0 {
        None
    } else {
        match action {
            Wait::Top => Some(0),
            Wait::Bottom => Some(len - 1),
            Wait::Up => Some(up(1)),
            Wait::Down => Some(down(1)),
            Wait::HalfUp => Some(up(step)),
            Wait::HalfDown => Some(down(step)),
            _ => match sel {
                Some(i) => Some(i as int),
                None => None,
            },
        }
    }
}

fn stepped_up(sel: Option<usize>, n: usize) -> (r: usize)
    ensures
        r == match sel {
            Some(i) => if i - n < 0 {
                0
            } else {
                i - n
            },
            None => 0,
        },
{
    match sel {
        Some(i) => if i < n {
            0
        } else {
            i - n
        },
        None => 0,
    }
}

fn stepped_down(sel: Option<usize>, n: usize, last: usize) -> (r: usize)
    ensures
        r == match sel {
            Some(i) => if i + n > last {
                last as int
            } else {
                i + n
            },
            None => 0,
        },
{
    match sel {
        Some(i) => if i > last || n > last - i {
            last
        } else {
            i + n
        },
        None => 0,
    }
}

/// The selection after a movement key in a list of `len` rows; `half` is half a
/// page.
pub fn moved(action: Wait, sel: Option<usize>, len: usize, half: usize) -> (r: Option<usize>)
    ensures
        match r {
            Some(i) => moved_to(action, sel, len as int, half as int) == Some(i as int),
            None => moved_to(action, sel, len as int, half as int) is None,
        },
{
    if len == 0 {
        return None;
    }
    let last: usize = len - 1;
    let step: usize = if half < 1 {
        1
    } else {
        half
    };
    match action {
        Wait::Top => Some(0),
        Wait::Bottom => Some(last),
        Wait::Up => Some(stepped_up(sel, 1)),
        Wait::Down => Some(stepped_down(sel, 1, last)),
        Wait::HalfUp => Some(stepped_up(sel, step)),
        Wait::HalfDown => Some(stepped_down(sel, step, last)),
        _ => sel,
    }
}

/// Bring a selection into a list that may have shrunk: none in an empty list,
/// and the last row at most.
pub fn clamp(sel: Option<usize>, len: usize) -> (r: Option<usize>)
    ensures
        r == match sel {
            Some(i) => if len == 0 {
                None
            } else if i < len {
                Some(i)
            } else {
                Some((len - 1) as usize)
            },
            None => None,
        },
{
    match sel {
        Some(i) => if len == 0 {
            None
        } else if i < len {
            Some(i)
        } else {
            Some(len - 1)
        },
        None => None,
    }
}

/// A selection inside the list stays inside it, whatever the key.
pub proof fn a_movement_stays_in_the_list(action: Wait, sel: Option<usize>, len: int, half: int)
    requires
        len >= 0,
        sel matches Some(i) ==> i < len,
    ensures
        moved_to(action, sel, len, half) matches Some(i) ==> 0 <= i < len,
{
}

/// A selection that is restored by its page is of a row with that page.
pub proof fn a_restored_selection_has_its_page(list: Seq<Seq<char>>, url: Seq<char>)
    requires
        list.contains(url),
    ensures
        position(list, url) < list.len(),
        list[position(list, url) as int] == url,
    decreases list.len(),
{
    if list.len() > 0 && list[0] != url {
        let i = choose|i: int| 0 <= i < list.len() && list[i] == url;
        assert(list.drop_first()[i - 1] == url);
        a_restored_selection_has_its_page(list.drop_first(), url);
    }
}

// ---------------------------------------------------------------------------
// What a search and a selection come to
// ---------------------------------------------------------------------------

/// Whether two texts are the same but for the case of their letters.
pub open spec fn same_but_for_case(a: Seq<char>, b: Seq<char>) -> bool {
    a.len() == b.len() && forall|k: int|
        0 <= k < a.len() ==> #[trigger] a[k] == b[k] || ('A' <= a[k] <= 'Z' && b[k] as int
            == a[k] as int + 32) || ('A' <= b[k] <= 'Z' && a[k] as int == b[k] as int + 32)
}

proof fn lower_case_is_what_is_the_same(a: Seq<char>, b: Seq<char>)
    ensures
        lowered(a) == lowered(b) <==> same_but_for_case(a, b),
{
    if same_but_for_case(a, b) {
        assert forall|k: int| 0 <= k < a.len() implies lowered(a)[k] == lowered(b)[k] by {
            assert(a[k] == b[k] || ('A' <= a[k] <= 'Z' && b[k] as int == a[k] as int + 32) || ('A'
                <= b[k] <= 'Z' && a[k] as int == b[k] as int + 32));
        }
        assert(lowered(a) =~= lowered(b));
    }
    if lowered(a) == lowered(b) {
        assert(lowered(a).len() == lowered(b).len());
        assert forall|k: int| 0 <= k < a.len() implies #[trigger] a[k] == b[k] || ('A' <= a[k]
            <= 'Z' && b[k] as int == a[k] as int + 32) || ('A' <= b[k] <= 'Z' && a[k] as int
            == b[k] as int + 32) by {
            assert(lowered(a)[k] == lowered(b)[k]);
        }
    }
}

/// A text mentions a query exactly if the query stands somewhere in it, in upper
/// or lower case.
pub proof fn a_query_is_found_where_it_stands(text: Seq<char>, query: Seq<char>)
    ensures
        mentions(text, query) <==> exists|pre: Seq<char>, mid: Seq<char>, post: Seq<char>|
            #![trigger pre + mid + post]
            text == pre + mid + post && same_but_for_case(mid, query),
{
    let t = lowered(text);
    let q = lowered(query);
    if mentions(text, query) {
        let at = choose|at: int| crate::text::occurs_at(t, q, at);
        let pre = text.take(at);
        let mid = text.subrange(at, at + query.len());
        let post = text.skip(at + query.len());
        assert(text =~= pre + mid + post);
        assert(lowered(mid) =~= t.subrange(at, at + q.len()));
        lower_case_is_what_is_the_same(mid, query);
    }
    if exists|pre: Seq<char>, mid: Seq<char>, post: Seq<char>|
        #![trigger pre + mid + post]
        text == pre + mid + post && same_but_for_case(mid, query) {
        let (pre, mid, post) = choose|pre: Seq<char>, mid: Seq<char>, post: Seq<char>|
            #![trigger pre + mid + post]
            text == pre + mid + post && same_but_for_case(mid, query);
        lower_case_is_what_is_the_same(mid, query);
        let at = pre.len() as int;
        assert(t.subrange(at, at + q.len()) =~= lowered(mid));
        assert(crate::text::occurs_at(t, q, at));
    }
}

/// A row is found by its title and by its number behind a `#`, and where it names
/// an author by that too.
pub proof fn a_row_is_found_by_what_it_shows(
    pr: PrRowView,
    queued: QueueRowView,
    merged: MergedRowView,
    review: ReviewRowView,
    done: ReviewedMergedView,
    query: Seq<char>,
)
    ensures
        <PrRow as Searchable>::found(pr, query) <==> mentions(pr.title, query) || mentions(
            "#"@ + dec_signed(pr.number as int),
            query,
        ),
        <QueueRow as Searchable>::found(queued, query) <==> mentions(queued.title, query)
            || mentions("#"@ + dec_signed(queued.number as int), query) || mentions(
            queued.author,
            query,
        ),
        <MergedRow as Searchable>::found(merged, query) <==> mentions(merged.title, query)
            || mentions("#"@ + dec_signed(merged.number as int), query),
        <ReviewRow as Searchable>::found(review, query) <==> mentions(review.title, query)
            || mentions("#"@ + dec_signed(review.number as int), query) || mentions(
            review.author,
            query,
        ),
        <ReviewedMergedRow as Searchable>::found(done, query) <==> mentions(done.title, query)
            || mentions("#"@ + dec_signed(done.number as int), query) || mentions(
            done.author,
            query,
        ),
{
}

/// A search goes row by row and keeps the order: a row stays exactly if it is
/// found, whatever the others are.
pub proof fn a_search_goes_row_by_row<T: Searchable>(
    a: Seq<T::V>,
    b: Seq<T::V>,
    r: T::V,
    query: Seq<char>,
)
    ensures
        hits::<T>(a + b, query) == hits::<T>(a, query) + hits::<T>(b, query),
        hits::<T>(seq![r], query) == if T::found(r, query) {
            seq![r]
        } else {
            Seq::empty()
        },
    decreases b.len(),
{
    reveal_with_fuel(hits, 2);
    let none = Seq::<T::V>::empty();
    assert(seq![r].drop_last() =~= none);
    assert(none.push(r) =~= seq![r]);
    if b.len() == 0 {
        assert(a + b =~= a);
        assert(hits::<T>(a, query) + hits::<T>(b, query) =~= hits::<T>(a, query));
    } else {
        let t = b.drop_last();
        assert((a + b).drop_last() =~= a + t);
        a_search_goes_row_by_row::<T>(a, t, r, query);
        assert((hits::<T>(a, query) + hits::<T>(t, query)).push(b.last()) =~= hits::<T>(a, query)
            + hits::<T>(t, query).push(b.last()));
    }
}

/// A search looks at the rows of every section and at nothing else: no section
/// comes or goes, and the shipments and the estimate of the queue stay.
pub proof fn a_search_leaves_the_sections(s: SectionsView, query: Seq<char>)
    ensures
        ({
            let f = filtered(s, query);
            &&& f.commits == s.commits
            &&& f.queue_next_eta == s.queue_next_eta
            &&& f.prs is Some <==> s.prs is Some
            &&& f.queue is Some <==> s.queue is Some
            &&& f.merged is Some <==> s.merged is Some
            &&& f.reviews is Some <==> s.reviews is Some
            &&& f.reviewed_merged is Some <==> s.reviewed_merged is Some
            &&& s.prs matches Some(r) ==> f.prs == Some(hits::<PrRow>(r, query))
            &&& s.queue matches Some(r) ==> f.queue == Some(hits::<QueueRow>(r, query))
            &&& s.merged matches Some(r) ==> f.merged == Some(hits::<MergedRow>(r, query))
            &&& s.reviews matches Some(r) ==> f.reviews == Some(hits::<ReviewRow>(r, query))
            &&& s.reviewed_merged matches Some(r) ==> f.reviewed_merged == Some(
                hits::<ReviewedMergedRow>(r, query),
            )
        }),
{
}

/// The rows of a section, none where it is disabled.
pub open spec fn rows_in<A>(rows: Option<Seq<A>>) -> Seq<A> {
    match rows {
        Some(r) => r,
        None => Seq::empty(),
    }
}

/// Each row can be reached by its place: the pages run through the open pull
/// requests, the queue, the merged ones and the shipments, or through the open
/// reviews and the merged ones, each in its order.
pub proof fn targets_follow_the_rows(s: SectionsView, i: int)
    requires
        i >= 0,
    ensures
        ({
            let t = targets_of(Pane::Mine, s);
            let p = rows_in(s.prs);
            let q = rows_in(s.queue);
            let m = rows_in(s.merged);
            let before = p.len() + q.len() + m.len();
            &&& i < p.len() ==> t[i] == p[i].url
            &&& i < q.len() ==> t[p.len() + i] == q[i].url
            &&& i < m.len() ==> t[p.len() + q.len() + i] == m[i].url
            &&& s.commits is None ==> t.len() == before
            &&& s.commits matches Some(c) ==> {
                &&& !c.available ==> t.len() == before
                &&& c.available && c.upcoming is None ==> t.len() == before + c.releases.len() && (i
                    < c.releases.len() ==> t[before + i] == c.releases[i].bucket.url)
                &&& c.available && c.upcoming is Some ==> t.len() == before + 1 + c.releases.len()
                    && t[before as int] == c.upcoming->0.url && (i < c.releases.len() ==> t[before
                    + 1 + i] == c.releases[i].bucket.url)
            }
        }),
        ({
            let t = targets_of(Pane::Reviews, s);
            let o = rows_in(s.reviews);
            let d = rows_in(s.reviewed_merged);
            &&& t.len() == o.len() + d.len()
            &&& i < o.len() ==> t[i] == o[i].url
            &&& i < d.len() ==> t[o.len() + i] == d[i].url
        }),
{
    assert(links::<PrRow>(rows_in(s.prs)) =~= opt_links::<PrRow>(s.prs));
    assert(links::<QueueRow>(rows_in(s.queue)) =~= opt_links::<QueueRow>(s.queue));
    assert(links::<MergedRow>(rows_in(s.merged)) =~= opt_links::<MergedRow>(s.merged));
    assert(links::<ReviewRow>(rows_in(s.reviews)) =~= opt_links::<ReviewRow>(s.reviews));
    assert(links::<ReviewedMergedRow>(rows_in(s.reviewed_merged)) =~= opt_links::<
        ReviewedMergedRow,
    >(s.reviewed_merged));
}

/// Each movement goes its way: one row or half a page, no further than the first
/// and the last row; to the first row or to the last. Without a selection a
/// movement enters at the first row, but for the one to the last. Anything else
/// leaves the selection where it is.
pub proof fn each_movement_goes_its_way(action: Wait, i: usize, len: int, half: int)
    requires
        0 <= i < len,
        half >= 1,
    ensures
        moved_to(Wait::Top, Some(i), len, half) == Some(0int),
        moved_to(Wait::Bottom, Some(i), len, half) == Some(len - 1),
        i + 1 < len ==> moved_to(Wait::Down, Some(i), len, half) == Some(i + 1),
        i + 1 == len ==> moved_to(Wait::Down, Some(i), len, half) == Some(i as int),
        i > 0 ==> moved_to(Wait::Up, Some(i), len, half) == Some(i - 1),
        i == 0 ==> moved_to(Wait::Up, Some(i), len, half) == Some(0int),
        i + half < len ==> moved_to(Wait::HalfDown, Some(i), len, half) == Some(i + half),
        i + half >= len ==> moved_to(Wait::HalfDown, Some(i), len, half) == Some(len - 1),
        i >= half ==> moved_to(Wait::HalfUp, Some(i), len, half) == Some(i - half),
        i < half ==> moved_to(Wait::HalfUp, Some(i), len, half) == Some(0int),
        moved_to(Wait::Bottom, None, len, half) == Some(len - 1),
        (action == Wait::Top || action == Wait::Up || action == Wait::Down || action == Wait::HalfUp
            || action == Wait::HalfDown) ==> moved_to(action, None, len, half) == Some(0int),
        !crate::term::is_movement(action) ==> moved_to(action, Some(i), len, half) == Some(i as int)
            && moved_to(action, None, len, half) is None,
        moved_to(action, Some(i), 0, half) is None,
        moved_to(action, None, 0, half) is None,
{
}

/// A page is found at the first row that has it.
pub proof fn a_page_is_found_at_its_first_row(list: Seq<Seq<char>>, url: Seq<char>, k: int)
    requires
        0 <= k < position(list, url),
    ensures
        k < list.len(),
        list[k] != url,
    decreases list.len(),
{
    if k > 0 {
        a_page_is_found_at_its_first_row(list.drop_first(), url, k - 1);
    }
}

/// The section of a selection is the one that its row is in: it has the row at
/// what is left of the selection once the rows of the sections before it are
/// taken off, and that is the row of the selection among all.
pub proof fn the_section_has_the_selected_row(lists: Seq<Seq<Seq<char>>>, index: int)
    requires
        0 <= index < joined(lists).len(),
    ensures
        exists|n: int|
            #![trigger lists[n]]
            0 <= n < lists.len() && list_at(lists, index, 0) == lists[n] && 0 <= index - joined(
                lists.take(n),
            ).len() < lists[n].len() && lists[n][index - joined(lists.take(n)).len()] == joined(
                lists,
            )[index],
{
    assert(lists.take(0) =~= Seq::empty());
    the_section_is_reached(lists, index, 0);
}

proof fn the_section_is_reached(lists: Seq<Seq<Seq<char>>>, index: int, m: int)
    requires
        0 <= m <= lists.len(),
        joined(lists.take(m)).len() <= index < joined(lists).len(),
    ensures
        exists|n: int|
            #![trigger lists[n]]
            m <= n < lists.len() && list_at(lists, index - joined(lists.take(m)).len(), m)
                == lists[n] && 0 <= index - joined(lists.take(n)).len() < lists[n].len()
                && lists[n][index - joined(lists.take(n)).len()] == joined(lists)[index],
    decreases lists.len() - m,
{
    if m == lists.len() {
        assert(lists.take(m) =~= lists);
    } else {
        let before = joined(lists.take(m));
        assert(lists.take(m + 1).drop_last() =~= lists.take(m));
        assert(lists.take(m + 1).last() == lists[m]);
        assert(joined(lists.take(m + 1)) == before + lists[m]);
        if index - before.len() < lists[m].len() {
            a_beginning_stays(lists, m + 1, index);
            assert(joined(lists)[index] == (before + lists[m])[index]);
            assert(lists[m][index - before.len()] == joined(lists)[index]);
        } else {
            the_section_is_reached(lists, index, m + 1);
        }
    }
}

proof fn a_beginning_stays(lists: Seq<Seq<Seq<char>>>, m: int, index: int)
    requires
        0 <= m <= lists.len(),
        0 <= index < joined(lists.take(m)).len(),
    ensures
        index < joined(lists).len(),
        joined(lists)[index] == joined(lists.take(m))[index],
    decreases lists.len() - m,
{
    if m == lists.len() {
        assert(lists.take(m) =~= lists);
    } else {
        assert(lists.take(m + 1).drop_last() =~= lists.take(m));
        a_beginning_stays(lists, m + 1, index);
    }
}

/// What filtering gives: of each section exactly the rows that the query finds by
/// title, number or author.
pub proof fn filtering_keeps_what_is_found(s: &Sections, query: &str, r: Sections, k: int)
    requires
        call_ensures(filter, (s, query), r),
    ensures
        r@.prs is Some <==> s@.prs is Some,
        r@.queue is Some <==> s@.queue is Some,
        r@.merged is Some <==> s@.merged is Some,
        r@.reviews is Some <==> s@.reviews is Some,
        r@.reviewed_merged is Some <==> s@.reviewed_merged is Some,
        r@.commits == s@.commits,
        (s@.prs matches Some(rows) && 0 <= k < rows.len()) ==> (r@.prs->0.contains(s@.prs->0[k])
            <==> mentions(s@.prs->0[k].title, query@) || mentions(
            "#"@ + dec_signed(s@.prs->0[k].number as int),
            query@,
        )),
        (s@.queue matches Some(rows) && 0 <= k < rows.len()) ==> (r@.queue->0.contains(
            s@.queue->0[k],
        ) <==> mentions(s@.queue->0[k].title, query@) || mentions(
            "#"@ + dec_signed(s@.queue->0[k].number as int),
            query@,
        ) || mentions(s@.queue->0[k].author, query@)),
        (s@.merged matches Some(rows) && 0 <= k < rows.len()) ==> (r@.merged->0.contains(
            s@.merged->0[k],
        ) <==> mentions(s@.merged->0[k].title, query@) || mentions(
            "#"@ + dec_signed(s@.merged->0[k].number as int),
            query@,
        )),
        (s@.reviews matches Some(rows) && 0 <= k < rows.len()) ==> (r@.reviews->0.contains(
            s@.reviews->0[k],
        ) <==> mentions(s@.reviews->0[k].title, query@) || mentions(
            "#"@ + dec_signed(s@.reviews->0[k].number as int),
            query@,
        ) || mentions(s@.reviews->0[k].author, query@)),
{
    if let Some(rows) = s@.prs {
        a_search_leaves_what_it_finds::<PrRow>(rows, query@, rows[k]);
    }
    if let Some(rows) = s@.queue {
        a_search_leaves_what_it_finds::<QueueRow>(rows, query@, rows[k]);
    }
    if let Some(rows) = s@.merged {
        a_search_leaves_what_it_finds::<MergedRow>(rows, query@, rows[k]);
    }
    if let Some(rows) = s@.reviews {
        a_search_leaves_what_it_finds::<ReviewRow>(rows, query@, rows[k]);
    }
}

/// What a movement gives, for each key.
pub proof fn a_key_moves_the_selection(
    i: usize,
    len: usize,
    half: usize,
    down: Option<usize>,
    up: Option<usize>,
    top: Option<usize>,
    bottom: Option<usize>,
)
    requires
        i < len,
        call_ensures(moved, (Wait::Down, Some(i), len, half), down),
        call_ensures(moved, (Wait::Up, Some(i), len, half), up),
        call_ensures(moved, (Wait::Top, Some(i), len, half), top),
        call_ensures(moved, (Wait::Bottom, Some(i), len, half), bottom),
    ensures
        down == Some(
            if i + 1 < len {
                (i + 1) as usize
            } else {
                i
            },
        ),
        up == Some(
            if i > 0 {
                (i - 1) as usize
            } else {
                0usize
            },
        ),
        top == Some(0usize),
        bottom == Some((len - 1) as usize),
{
}

/// A selection is brought into a list by no more than it takes: one inside stays,
/// and one behind the end goes to the last row.
pub proof fn clamping_moves_no_more_than_it_must(i: usize, len: usize, r: Option<usize>)
    requires
        call_ensures(clamp, (Some(i), len), r),
    ensures
        i < len ==> r == Some(i),
        len == 0 ==> r is None,
        0 < len <= i ==> r == Some((len - 1) as usize),
{
}

} // verus!
