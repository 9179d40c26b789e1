//! What to fetch for the sections that are wanted, and the sections that the
//! answers come to.

use crate::cli::{Cli, Section};
use crate::commits::{CommitStats, ReleaseMap, ReleaseRef, StatsView};
use crate::merged;
use crate::model::{MergedNode, PrNode, QueueEntryNode, ReviewsData};
use crate::prs;
use crate::queue;
use crate::reviews;
use crate::sections::{Sections, SectionsView};
use std::collections::HashMap;
use vstd::prelude::*;

verus! {

/// What is to be fetched.
#[derive(Clone, Copy, Debug, PartialEq, Eq)]
pub struct Plan {
    /// The releases: for the shipments, and for the merged pull requests.
    pub releases: bool,
    pub merged: bool,
    pub queue: bool,
    pub prs: bool,
    /// Whether the shipments are shown.
    pub shipments: bool,
    pub reviews: bool,
}

/// What is to be fetched for the wanted views, by the chosen sections.
pub open spec fn plan_of(cli: Cli, want_mine: bool, want_reviews: bool) -> Plan {
    Plan {
        releases: want_mine && (cli.wants(Section::Shipments) || cli.wants(Section::Merged)),
        merged: want_mine && cli.wants(Section::Merged),
        queue: want_mine && cli.wants(Section::Queue),
        prs: want_mine && cli.wants(Section::Mine),
        shipments: want_mine && cli.wants(Section::Shipments),
        reviews: want_reviews,
    }
}

/// What is to be fetched for the wanted views.
pub fn plan(cli: &Cli, want_mine: bool, want_reviews: bool) -> (r: Plan)
    ensures
        r == plan_of(*cli, want_mine, want_reviews),
{
    Plan {
        releases: want_mine && (cli.show_shipments() || cli.show_merged()),
        merged: want_mine && cli.show_merged(),
        queue: want_mine && cli.show_queue(),
        prs: want_mine && cli.show_mine(),
        shipments: want_mine && cli.show_shipments(),
        reviews: want_reviews,
    }
}

/// The answers, each `None` where nothing was asked.
#[derive(Debug)]
pub struct Answers {
    /// `None` also when the releases could not be had: that takes down neither
    /// the merged section nor the rest.
    pub releases: Option<(CommitStats, ReleaseMap)>,
    pub merged: Option<Vec<MergedNode>>,
    pub queue: Option<Vec<QueueEntryNode>>,
    pub queue_next_eta: Option<i64>,
    pub prs: Option<Vec<PrNode>>,
    pub reviews: Option<ReviewsData>,
    pub reviewed_merged: Option<Vec<MergedNode>>,
}

/// The release that shipped each pull request, as far as known.
pub open spec fn releases_in(a: Answers) -> Map<i64, ReleaseRef> {
    match a.releases {
        Some(r) => r.1@,
        None => Map::empty(),
    }
}

/// The counts, or that they could not be had.
pub open spec fn stats_in(a: Answers) -> StatsView {
    match a.releases {
        Some(r) => r.0@,
        None => StatsView { available: false, upcoming: None, releases: Seq::empty() },
    }
}

/// The sections of the answers to a plan.
pub open spec fn sections_of(cli: Cli, plan: Plan, me: Seq<char>, a: Answers) -> SectionsView {
    SectionsView {
        merged: match a.merged {
            Some(nodes) => Some(
                merged::capped(
                    crate::order::stable_sort::<merged::MergedRow>(
                        merged::rows_of(nodes@, releases_in(a)),
                    ),
                    cli.merged_limit as nat,
                ),
            ),
            None => None,
        },
        queue: match a.queue {
            Some(nodes) => Some(
                crate::order::stable_sort::<queue::QueueRow>(queue::rows_of(nodes@, me)),
            ),
            None => None,
        },
        queue_next_eta: match a.queue {
            Some(_) => a.queue_next_eta,
            None => None,
        },
        prs: match a.prs {
            Some(nodes) => {
                let rows = crate::order::stable_sort::<prs::PrRow>(prs::rows_of(nodes@));
                Some(
                    if cli.no_draft {
                        prs::undrafted(rows)
                    } else {
                        rows
                    },
                )
            },
            None => None,
        },
        commits: if plan.shipments {
            Some(stats_in(a))
        } else {
            None
        },
        reviews: match a.reviews {
            Some(data) => Some(
                if cli.no_draft {
                    reviews::undrafted(reviews::open_rows(data))
                } else {
                    reviews::open_rows(data)
                },
            ),
            None => None,
        },
        reviewed_merged: match a.reviewed_merged {
            Some(nodes) => Some(
                merged::capped(
                    crate::order::stable_sort::<reviews::ReviewedMergedRow>(
                        reviews::merged_rows_of(nodes@),
                    ),
                    cli.merged_limit as nat,
                ),
            ),
            None => None,
        },
    }
}

/// Put the sections together from the answers to a plan.
pub fn fetch(cli: &Cli, plan: Plan, me: &str, answers: Answers) -> (r: Sections)
    ensures
        r@ == sections_of(*cli, plan, me@, answers),
{
    let (stats, releases) = match answers.releases {
        Some(r) => r,
        None => (CommitStats::unavailable(), HashMap::new()),
    };
    let merged = match answers.merged {
        Some(nodes) => Some(merged::build_rows(nodes, cli.merged_limit, &releases)),
        None => None,
    };
    let queue_next_eta = if answers.queue.is_some() {
        answers.queue_next_eta
    } else {
        None
    };
    let queue = match answers.queue {
        Some(nodes) => Some(queue::build_rows(nodes, me)),
        None => None,
    };
    let prs = match answers.prs {
        Some(nodes) => {
            let rows = prs::build_rows(nodes);
            if cli.no_draft {
                Some(prs::without_drafts(rows))
            } else {
                Some(rows)
            }
        },
        None => None,
    };
    let commits = if plan.shipments {
        Some(stats)
    } else {
        None
    };
    let open = match answers.reviews {
        Some(data) => {
            let rows = reviews::build_open_rows(data);
            if cli.no_draft {
                Some(reviews::without_drafts(rows))
            } else {
                Some(rows)
            }
        },
        None => None,
    };
    let reviewed_merged = match answers.reviewed_merged {
        Some(nodes) => Some(reviews::build_merged_rows(nodes, cli.merged_limit)),
        None => None,
    };
    Sections { merged, queue, queue_next_eta, prs, commits, reviews: open, reviewed_merged }
}

/// A section is asked for exactly if its view is wanted and the section is chosen,
/// or none is. The releases are asked for where the shipments or the merged pull
/// requests are.
pub proof fn a_section_is_asked_for_if_chosen(cli: Cli, want_mine: bool, want_reviews: bool)
    ensures
        ({
            let p = plan_of(cli, want_mine, want_reviews);
            let free = cli.only is None;
            &&& p.queue <==> want_mine && (free || cli.only->0@.contains(Section::Queue))
            &&& p.prs <==> want_mine && (free || cli.only->0@.contains(Section::Mine))
            &&& p.merged <==> want_mine && (free || cli.only->0@.contains(Section::Merged))
            &&& p.shipments <==> want_mine && (free || cli.only->0@.contains(Section::Shipments))
            &&& p.releases <==> p.merged || p.shipments
            &&& p.reviews <==> want_reviews
        }),
{
}

/// A section is shown exactly if its answer came, the shipments if they were
/// planned. What could not be had of the releases takes nothing else down: the
/// shipments are then unavailable, and no merged pull request has a release.
pub proof fn a_section_is_shown_if_its_answer_came(
    cli: Cli,
    plan: Plan,
    me: Seq<char>,
    a: Answers,
    k: int,
)
    ensures
        ({
            let s = sections_of(cli, plan, me, a);
            &&& s.merged is Some <==> a.merged is Some
            &&& s.queue is Some <==> a.queue is Some
            &&& s.prs is Some <==> a.prs is Some
            &&& s.commits is Some <==> plan.shipments
            &&& s.reviews is Some <==> a.reviews is Some
            &&& s.reviewed_merged is Some <==> a.reviewed_merged is Some
            &&& a.queue is Some ==> s.queue_next_eta == a.queue_next_eta
            &&& a.queue is None ==> s.queue_next_eta is None
            &&& a.releases matches Some(r) ==> (plan.shipments ==> s.commits == Some(r.0@))
            &&& plan.shipments && a.releases is None ==> !s.commits->0.available
            &&& a.releases is None && (s.merged matches Some(rows) && 0 <= k < rows.len())
                ==> s.merged->0[k].release is None
        }),
{
    if let Some(nodes) = a.merged {
        let rows = merged::rows_of(nodes@, releases_in(a));
        let sorted = crate::order::stable_sort::<merged::MergedRow>(rows);
        let kept = sections_of(cli, plan, me, a).merged->0;
        if a.releases is None && 0 <= k < kept.len() {
            assert(kept[k] == sorted[k]);
            assert(sorted.contains(sorted[k]));
            crate::order::sorting_keeps_the_rows::<merged::MergedRow>(rows, sorted[k]);
            let i = choose|i: int| 0 <= i < rows.len() && rows[i] == sorted[k];
            assert(rows[i] == merged::row_of(nodes@[i], releases_in(a)));
        }
    }
}

/// Drafts are hidden where that is asked for, and only there: then no draft is
/// listed and every other row is, and else every row is.
pub proof fn drafts_are_hidden_on_request(
    cli: Cli,
    plan: Plan,
    me: Seq<char>,
    a: Answers,
    r: prs::PrRowView,
    v: reviews::ReviewRowView,
)
    ensures
        ({
            let s = sections_of(cli, plan, me, a);
            &&& a.prs matches Some(nodes) ==> (s.prs->0.contains(r) <==> prs::rows_of(
                nodes@,
            ).contains(r) && !(cli.no_draft && r.is_draft))
            &&& a.reviews matches Some(data) ==> (s.reviews->0.contains(v) <==> reviews::open_rows(
                data,
            ).contains(v) && !(cli.no_draft && v.is_draft))
        }),
{
    if let Some(nodes) = a.prs {
        let rows = prs::rows_of(nodes@);
        crate::order::sorting_keeps_the_rows::<prs::PrRow>(rows, r);
        undrafted_are_the_rest(crate::order::stable_sort::<prs::PrRow>(rows), r);
    }
    if let Some(data) = a.reviews {
        undrafted_reviews_are_the_rest(reviews::open_rows(data), v);
    }
}

proof fn undrafted_are_the_rest(s: Seq<prs::PrRowView>, r: prs::PrRowView)
    ensures
        prs::undrafted(s).contains(r) <==> s.contains(r) && !r.is_draft,
    decreases s.len(),
{
    if s.len() > 0 {
        let t = s.drop_last();
        let u = prs::undrafted(t);
        undrafted_are_the_rest(t, r);
        assert(s =~= t.push(s.last()));
        assert(t.push(s.last()).contains(r) <==> t.contains(r) || r == s.last()) by {
            vstd::seq_lib::lemma_seq_contains_after_push(t, s.last(), r);
        }
        assert(u.push(s.last()).contains(r) <==> u.contains(r) || r == s.last()) by {
            vstd::seq_lib::lemma_seq_contains_after_push(u, s.last(), r);
        }
    }
}

proof fn undrafted_reviews_are_the_rest(s: Seq<reviews::ReviewRowView>, r: reviews::ReviewRowView)
    ensures
        reviews::undrafted(s).contains(r) <==> s.contains(r) && !r.is_draft,
    decreases s.len(),
{
    if s.len() > 0 {
        let t = s.drop_last();
        let u = reviews::undrafted(t);
        undrafted_reviews_are_the_rest(t, r);
        assert(s =~= t.push(s.last()));
        assert(t.push(s.last()).contains(r) <==> t.contains(r) || r == s.last()) by {
            vstd::seq_lib::lemma_seq_contains_after_push(t, s.last(), r);
        }
        assert(u.push(s.last()).contains(r) <==> u.contains(r) || r == s.last()) by {
            vstd::seq_lib::lemma_seq_contains_after_push(u, s.last(), r);
        }
    }
}

/// What fetching gives: a section for each answer, and the shipments if they were
/// planned.
pub proof fn fetching_shows_what_was_answered(
    cli: &Cli,
    plan: Plan,
    me: &str,
    answers: Answers,
    r: Sections,
)
    requires
        call_ensures(fetch, (cli, plan, me, answers), r),
    ensures
        r@.merged is Some <==> answers.merged is Some,
        r@.queue is Some <==> answers.queue is Some,
        r@.prs is Some <==> answers.prs is Some,
        r@.commits is Some <==> plan.shipments,
        r@.reviews is Some <==> answers.reviews is Some,
        r@.reviewed_merged is Some <==> answers.reviewed_merged is Some,
        answers.queue matches Some(nodes) ==> r@.queue->0.len() == nodes@.len(),
        (answers.prs matches Some(nodes) && !cli.no_draft) ==> r@.prs->0.len()
            == answers.prs->0@.len(),
        answers.merged matches Some(nodes) ==> r@.merged->0.len() == if nodes@.len()
            <= cli.merged_limit {
            nodes@.len() as int
        } else {
            cli.merged_limit as int
        },
{
    if let Some(nodes) = answers.queue {
        crate::order::stable_sort_sorts::<queue::QueueRow>(queue::rows_of(nodes@, me@));
    }
    if let Some(nodes) = answers.prs {
        crate::order::stable_sort_sorts::<prs::PrRow>(prs::rows_of(nodes@));
    }
    if let Some(nodes) = answers.merged {
        crate::order::stable_sort_sorts::<merged::MergedRow>(
            merged::rows_of(nodes@, releases_in(answers)),
        );
    }
}

/// What is planned: a section exactly if my view is wanted and the section is
/// chosen, or none is.
pub proof fn planning_goes_by_the_choice(cli: &Cli, want_mine: bool, want_reviews: bool, r: Plan)
    requires
        call_ensures(plan, (cli, want_mine, want_reviews), r),
    ensures
        r.queue <==> want_mine && (cli.only matches Some(l) ==> l@.contains(Section::Queue)),
        r.prs <==> want_mine && (cli.only matches Some(l) ==> l@.contains(Section::Mine)),
        r.merged <==> want_mine && (cli.only matches Some(l) ==> l@.contains(Section::Merged)),
        r.shipments <==> want_mine && (cli.only matches Some(l) ==> l@.contains(
            Section::Shipments,
        )),
        r.releases <==> r.merged || r.shipments,
        r.reviews <==> want_reviews,
{
}

} // verus!
