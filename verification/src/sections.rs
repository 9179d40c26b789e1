//! A fetched snapshot of every section of the dashboard.

use crate::commits::{CommitStats, StatsView};
use crate::merged::{MergedRow, MergedRowView};
use crate::order::rows_view;
use crate::prs::{PrRow, PrRowView};
use crate::queue::{QueueRow, QueueRowView};
use crate::reviews::{ReviewRow, ReviewRowView, ReviewedMergedRow, ReviewedMergedView};
use vstd::prelude::*;

verus! {

/// The rows of each section; `None` where a section is disabled.
#[derive(Debug)]
pub struct Sections {
    pub merged: Option<Vec<MergedRow>>,
    pub queue: Option<Vec<QueueRow>>,
    /// Seconds until an entry that is added to the queue now would merge.
    pub queue_next_eta: Option<i64>,
    pub prs: Option<Vec<PrRow>>,
    pub commits: Option<CommitStats>,
    /// Open pull requests that I review.
    pub reviews: Option<Vec<ReviewRow>>,
    /// Merged pull requests that I reviewed.
    pub reviewed_merged: Option<Vec<ReviewedMergedRow>>,
}

/// What the sections hold.
#[verifier::ext_equal]
pub struct SectionsView {
    pub merged: Option<Seq<MergedRowView>>,
    pub queue: Option<Seq<QueueRowView>>,
    pub queue_next_eta: Option<i64>,
    pub prs: Option<Seq<PrRowView>>,
    pub commits: Option<StatsView>,
    pub reviews: Option<Seq<ReviewRowView>>,
    pub reviewed_merged: Option<Seq<ReviewedMergedView>>,
}

/// The views of the rows of a section.
pub open spec fn opt_rows<T: View>(rows: Option<Vec<T>>) -> Option<Seq<T::V>> {
    match rows {
        Some(v) => Some(rows_view(v@)),
        None => None,
    }
}

impl View for Sections {
    type V = SectionsView;

    open spec fn view(&self) -> SectionsView {
        SectionsView {
            merged: opt_rows(self.merged),
            queue: opt_rows(self.queue),
            queue_next_eta: self.queue_next_eta,
            prs: opt_rows(self.prs),
            commits: match self.commits {
                Some(c) => Some(c@),
                None => None,
            },
            reviews: opt_rows(self.reviews),
            reviewed_merged: opt_rows(self.reviewed_merged),
        }
    }
}

/// Sections that are all disabled.
pub open spec fn no_sections() -> SectionsView {
    SectionsView {
        merged: None,
        queue: None,
        queue_next_eta: None,
        prs: None,
        commits: None,
        reviews: None,
        reviewed_merged: None,
    }
}

impl Sections {
    /// Every section disabled: what is painted when nothing could be fetched.
    pub fn empty() -> (r: Sections)
        ensures
            r@ == no_sections(),
    {
        Sections {
            merged: None,
            queue: None,
            queue_next_eta: None,
            prs: None,
            commits: None,
            reviews: None,
            reviewed_merged: None,
        }
    }
}

} // verus!
