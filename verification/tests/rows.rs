use prowl::commits::{ReleaseMap, ReleaseRef};
use prowl::merged;
use prowl::model::{
    queue_nodes, CheckRuns, CheckSuite, CheckSuites, Commit, CommitNode, Commits, Login,
    MergeQueue, MergedNode, MyReview, MyReviews, PrNode, QueueCommit, QueueData, QueueEntries,
    QueueEntry, QueueEntryNode, QueuePr, QueueRepo, ReviewCommit, ReviewCommitNode, ReviewCommits,
    ReviewPrNode, ReviewSearch, ReviewsData,
};
use prowl::prs;
use prowl::queue::{self, VisibleRows};
use prowl::render::{self, Cell};
use prowl::reviews;
use prowl::status::{ReviewState, Status};
use std::collections::HashSet;

fn queue_node(position: i64, number: i64, login: &str) -> QueueEntryNode {
    QueueEntryNode {
        position,
        enqueued_at: None,
        head_commit: None,
        pull_request: QueuePr {
            number,
            title: format!("PR {number}"),
            url: format!("https://x/{number}"),
            author: Some(Login {
                login: login.to_string(),
            }),
        },
    }
}

#[test]
fn orders_by_position_and_flags_mine() {
    let rows = queue::build_rows(
        vec![queue_node(2, 20, "alice"), queue_node(1, 10, "caarlos0")],
        "caarlos0",
    );
    assert_eq!(rows[0].position, 1);
    assert!(rows[0].mine);
    assert_eq!(rows[1].position, 2);
    assert!(!rows[1].mine);
}

#[test]
fn missing_author_becomes_ghost() {
    let mut n = queue_node(1, 1, "x");
    n.pull_request.author = None;
    let rows = queue::build_rows(vec![n], "caarlos0");
    assert_eq!(rows[0].author, "ghost");
    assert!(!rows[0].mine);
}

#[test]
fn a_missing_author_is_nobody() {
    let mut n = queue_node(1, 1, "x");
    n.pull_request.author = None;
    let rows = queue::build_rows(vec![n, queue_node(2, 2, "ghost")], "ghost");
    assert_eq!(rows[0].author, "ghost");
    assert!(!rows[0].mine);
    assert!(rows[1].mine);
}

#[test]
fn carries_enqueued_and_build_times() {
    let mut n = queue_node(1, 1, "caarlos0");
    n.enqueued_at = Some("2026-06-19T11:50:00Z".to_string());
    n.head_commit = Some(QueueCommit {
        committed_date: Some("2026-06-19T11:55:00Z".to_string()),
    });
    let rows = queue::build_rows(vec![n], "caarlos0");
    assert_eq!(rows[0].enqueued_at.as_deref(), Some("2026-06-19T11:50:00Z"));
    assert_eq!(
        rows[0].build_started_at.as_deref(),
        Some("2026-06-19T11:55:00Z")
    );
}

#[test]
fn no_head_commit_leaves_build_time_empty() {
    let rows = queue::build_rows(vec![queue_node(1, 1, "caarlos0")], "caarlos0");
    assert!(rows[0].build_started_at.is_none());
    let out = render::render_table(&queue::to_table(&rows, true), false);
    assert!(out.contains("WAIT"));
    assert!(out.contains("BUILD"));
    assert!(out.contains('\u{2014}'));
}

#[test]
fn equal_positions_keep_their_order() {
    let rows = queue::build_rows(
        vec![
            queue_node(1, 30, "a"),
            queue_node(0, 5, "a"),
            queue_node(1, 10, "a"),
            queue_node(1, 20, "a"),
        ],
        "me",
    );
    assert_eq!(
        rows.iter().map(|r| r.number).collect::<Vec<_>>(),
        [5, 30, 10, 20]
    );
}

#[test]
fn narrower_choices_of_the_queue_show_fewer_rows() {
    let mut building = queue_node(1, 1, "other");
    building.head_commit = Some(QueueCommit {
        committed_date: Some("2026-06-19T11:55:00Z".to_string()),
    });
    let rows = queue::build_rows(
        vec![building, queue_node(2, 2, "me"), queue_node(3, 3, "other")],
        "me",
    );
    let numbers = |mode: VisibleRows| -> Vec<i64> {
        mode.rows(&rows).iter().map(|r| r.number).collect()
    };
    assert_eq!(numbers(VisibleRows::All), [1, 2, 3]);
    assert_eq!(numbers(VisibleRows::BuildingAndMine), [1, 2]);
    assert_eq!(numbers(VisibleRows::Building), [1]);
    assert_eq!(VisibleRows::BuildingAndMine.count(&rows), 2);
}

fn pr(number: i64, mergeable: &str, state: &str, concls: &[Option<&str>]) -> PrNode {
    PrNode {
        number,
        title: format!("PR {number}"),
        url: format!("https://x/{number}"),
        state: Some("OPEN".to_string()),
        mergeable: Some(mergeable.to_string()),
        merge_state_status: Some(state.to_string()),
        is_draft: false,
        updated_at: None,
        merge_queue_entry: None,
        commits: Commits {
            nodes: vec![CommitNode {
                commit: Commit {
                    check_suites: CheckSuites {
                        total_count: concls.len() as u64,
                        nodes: concls
                            .iter()
                            .map(|c| CheckSuite {
                                conclusion: c.map(str::to_string),
                                check_runs: Some(CheckRuns { total_count: 1 }),
                            })
                            .collect(),
                    },
                },
            }],
        },
    }
}

#[test]
fn sorts_by_updated_at_then_derives_status_and_fail() {
    let mut a = pr(10, "MERGEABLE", "BLOCKED", &[Some("SUCCESS")]);
    a.updated_at = Some("2026-06-19T10:00:00Z".to_string());
    let mut b = pr(
        42,
        "CONFLICTING",
        "DIRTY",
        &[Some("FAILURE"), Some("FAILURE")],
    );
    b.updated_at = Some("2026-06-19T09:00:00Z".to_string());
    let rows = prs::build_rows(vec![a, b]);
    assert_eq!(rows[0].number, 10);
    assert_eq!(rows[0].status, Some(Status::Pass));
    assert_eq!(rows[0].fail, 0);
    assert_eq!(rows[1].number, 42);
    assert_eq!(rows[1].status, Some(Status::Conflicts));
    assert_eq!(rows[1].fail, 2);
}

#[test]
fn queue_entry_becomes_position_and_state() {
    let mut p = pr(1, "MERGEABLE", "CLEAN", &[Some("SUCCESS")]);
    p.merge_queue_entry = Some(QueueEntry {
        position: 3,
        state: "QUEUED".to_string(),
    });
    let rows = prs::build_rows(vec![p]);
    assert_eq!(rows[0].queue, Some((3, "QUEUED".to_string())));
}

#[test]
fn without_queued_drops_prs_in_the_merge_queue() {
    let mut queued = pr(1, "MERGEABLE", "CLEAN", &[Some("SUCCESS")]);
    queued.merge_queue_entry = Some(QueueEntry {
        position: 1,
        state: "QUEUED".to_string(),
    });
    let open = pr(2, "MERGEABLE", "CLEAN", &[Some("SUCCESS")]);
    let rows = prs::without_queued(prs::build_rows(vec![queued, open]));
    assert_eq!(rows.iter().map(|r| r.number).collect::<Vec<_>>(), [2]);
}

#[test]
fn truncated_check_suites_degrade_pass_to_pending() {
    let mut p = pr(1, "MERGEABLE", "CLEAN", &[Some("SUCCESS")]);
    p.commits.nodes[0].commit.check_suites.total_count = 50;
    let rows = prs::build_rows(vec![p]);
    assert_eq!(rows[0].status, Some(Status::Pending));
}

#[test]
fn undated_rows_come_last_and_higher_numbers_first() {
    let mut dated = pr(1, "MERGEABLE", "CLEAN", &[]);
    dated.updated_at = Some("2020-01-01T00:00:00Z".to_string());
    let rows = prs::build_rows(vec![
        pr(2, "MERGEABLE", "CLEAN", &[]),
        dated,
        pr(3, "MERGEABLE", "CLEAN", &[]),
    ]);
    assert_eq!(rows.iter().map(|r| r.number).collect::<Vec<_>>(), [1, 3, 2]);
}

#[test]
fn drafts_can_be_left_out() {
    let mut draft = pr(1, "MERGEABLE", "DRAFT", &[]);
    draft.is_draft = true;
    let rows = prs::without_drafts(prs::build_rows(vec![
        draft,
        pr(2, "MERGEABLE", "CLEAN", &[]),
    ]));
    assert_eq!(rows.iter().map(|r| r.number).collect::<Vec<_>>(), [2]);
}

#[test]
fn open_table_marks_changes_and_shows_states() {
    let rows = prs::build_rows(vec![
        pr(7, "CONFLICTING", "DIRTY", &[Some("FAILURE")]),
        pr(6, "MERGEABLE", "CLEAN", &[]),
    ]);
    let table = prs::to_table(&rows, true, &HashSet::from([7]));
    let texts = |i: usize| -> Vec<&str> { table.rows[i].iter().map(|c| c.text.as_str()).collect() };
    assert_eq!(texts(0), [">", "!", "#7", "PR 7", "CONFLICTS", "1"]);
    assert_eq!(texts(1), [" ", "-", "#6", "PR 6", "CLEAN", "-"]);
    assert_eq!(table.header, ["", "", "PR", "TITLE", "STATE", "FAIL"]);
    // The number links to the pull request.
    assert_eq!(table.rows[0][2].link, "https://x/7");
    let glyphs = prs::to_table(&rows, false, &HashSet::new());
    assert_eq!(glyphs.rows[0][4].text, "\u{f127}");
    assert_eq!(glyphs.rows[0][0], Cell::plain(" "));
}

#[test]
fn without_an_update_time_the_merge_time_counts() {
    let at = |s: &str| Some(s.to_string());
    let node = |merged_at, updated_at| {
        MergedNode::new(3, "t".to_string(), "u".to_string(), None, merged_at, updated_at)
    };
    let n = node(at("2026-06-19T10:00:00Z"), None);
    assert_eq!(n.number, 3);
    assert_eq!(n.title, "t");
    assert_eq!(n.url, "u");
    assert!(n.author.is_none());
    assert_eq!(n.merged_at.as_deref(), Some("2026-06-19T10:00:00Z"));
    assert_eq!(n.updated_at.as_deref(), Some("2026-06-19T10:00:00Z"));
    let n = node(at("2026-06-19T10:00:00Z"), at("2026-06-20T10:00:00Z"));
    assert_eq!(n.updated_at.as_deref(), Some("2026-06-20T10:00:00Z"));
    assert!(node(None, None).updated_at.is_none());
}

fn merged_node(number: i64, updated_at: &str) -> MergedNode {
    MergedNode {
        number,
        title: format!("PR {number}"),
        url: format!("https://x/{number}"),
        author: None,
        merged_at: Some(updated_at.to_string()),
        updated_at: Some(updated_at.to_string()),
    }
}

#[test]
fn sorts_by_updated_at_desc_and_caps() {
    let rows = merged::build_rows(
        vec![
            merged_node(1, "2026-06-10T00:00:00Z"),
            merged_node(2, "2026-06-18T00:00:00Z"),
            merged_node(3, "2026-06-14T00:00:00Z"),
        ],
        2,
        &ReleaseMap::new(),
    );
    assert_eq!(rows.len(), 2);
    assert_eq!(rows[0].number, 2);
    assert_eq!(rows[1].number, 3);
}

#[test]
fn annotates_release_from_map() {
    let mut releases = ReleaseMap::new();
    releases.insert(
        2,
        ReleaseRef {
            tag: "v1.2.0".to_string(),
            url: "https://x/releases/tag/v1.2.0".to_string(),
        },
    );
    let rows = merged::build_rows(
        vec![
            merged_node(1, "2026-06-10T00:00:00Z"),
            merged_node(2, "2026-06-18T00:00:00Z"),
        ],
        10,
        &releases,
    );
    assert_eq!(rows[0].number, 2);
    assert_eq!(rows[0].release.as_ref().unwrap().tag, "v1.2.0");
    assert!(rows[1].release.is_none());

    let table = merged::to_table(&rows, true, &HashSet::from([1]));
    assert_eq!(table.rows[0][4].text, "v1.2.0");
    assert_eq!(table.rows[0][4].link, "https://x/releases/tag/v1.2.0");
    assert_eq!(table.rows[1][4].text, "\u{2014}");
    assert_eq!(table.rows[1][0].text, ">");
    assert_eq!(table.rows[0][1].text, "m");
}

fn node(
    number: i64,
    author: &str,
    last_commit: Option<&str>,
    my_reviews: &[&str],
) -> ReviewPrNode {
    ReviewPrNode {
        number,
        title: format!("PR {number}"),
        url: format!("https://x/{number}"),
        is_draft: false,
        updated_at: Some("2026-06-19T00:00:00Z".to_string()),
        author: Some(Login {
            login: author.to_string(),
        }),
        commits: ReviewCommits {
            nodes: last_commit
                .map(|c| ReviewCommitNode {
                    commit: ReviewCommit {
                        committed_date: Some(c.to_string()),
                    },
                })
                .into_iter()
                .collect(),
        },
        reviews: MyReviews {
            nodes: my_reviews
                .iter()
                .map(|s| MyReview {
                    submitted_at: Some(s.to_string()),
                })
                .collect(),
        },
    }
}

#[test]
fn derives_all_review_states_and_orders_them() {
    let data = ReviewsData {
        requested: ReviewSearch {
            nodes: vec![
                node(1, "alice", Some("2026-06-10T00:00:00Z"), &[]),
                node(
                    2,
                    "bob",
                    Some("2026-06-10T00:00:00Z"),
                    &["2026-06-09T00:00:00Z"],
                ),
            ],
        },
        reviewed: ReviewSearch {
            nodes: vec![
                node(
                    2,
                    "bob",
                    Some("2026-06-10T00:00:00Z"),
                    &["2026-06-09T00:00:00Z"],
                ),
                node(
                    3,
                    "carol",
                    Some("2026-06-12T00:00:00Z"),
                    &["2026-06-08T00:00:00Z"],
                ),
                node(
                    4,
                    "dave",
                    Some("2026-06-01T00:00:00Z"),
                    &["2026-06-05T00:00:00Z"],
                ),
            ],
        },
    };
    let rows = reviews::build_open_rows(data);
    assert_eq!(rows.len(), 4);
    assert_eq!(
        rows.iter().map(|r| (r.number, r.state)).collect::<Vec<_>>(),
        vec![
            (1, ReviewState::Awaiting),
            (2, ReviewState::ReReview),
            (3, ReviewState::Updated),
            (4, ReviewState::Reviewed),
        ]
    );
}

#[test]
fn reviewed_without_new_commits_is_not_updated() {
    let data = ReviewsData {
        requested: ReviewSearch { nodes: vec![] },
        reviewed: ReviewSearch {
            nodes: vec![node(
                9,
                "eve",
                Some("2026-06-01T00:00:00Z"),
                &["2026-06-10T00:00:00Z"],
            )],
        },
    };
    let rows = reviews::build_open_rows(data);
    assert_eq!(rows[0].state, ReviewState::Reviewed);
}

#[test]
fn the_latest_review_counts() {
    let n = node(
        9,
        "eve",
        Some("2026-06-05T00:00:00Z"),
        &["2026-06-01T00:00:00Z", "2026-06-10T00:00:00Z", "2026-06-02T00:00:00Z"],
    );
    assert_eq!(reviews::review_state(false, &n), ReviewState::Reviewed);
    let n = node(
        9,
        "eve",
        Some("2026-06-05T00:00:00Z"),
        &["2026-06-01T00:00:00Z", "2026-06-02T00:00:00Z"],
    );
    assert_eq!(reviews::review_state(false, &n), ReviewState::Updated);
    assert_eq!(
        reviews::review_state(false, &node(1, "a", None, &[])),
        ReviewState::Reviewed
    );
}

#[test]
fn open_table_uses_ascii_glyphs_and_author() {
    let data = ReviewsData {
        requested: ReviewSearch {
            nodes: vec![node(1, "alice", None, &[])],
        },
        reviewed: ReviewSearch { nodes: vec![] },
    };
    let rows = reviews::build_open_rows(data);
    let table = reviews::open_to_table(&rows, true);
    assert_eq!(table.rows[0][1].text, "a");
    assert_eq!(table.rows[0][2].text, "#1");
    assert_eq!(table.rows[0][4].text, "alice");
}

#[test]
fn long_logins_are_cut() {
    let data = ReviewsData {
        requested: ReviewSearch {
            nodes: vec![node(1, "a-login-that-is-far-too-long", None, &[])],
        },
        reviewed: ReviewSearch { nodes: vec![] },
    };
    let rows = reviews::build_open_rows(data);
    let table = reviews::open_to_table(&rows, true);
    assert_eq!(table.rows[0][4].text, "a-login-that-...");
}

fn reviewed_node(number: i64, author: &str, merged_at: &str) -> MergedNode {
    MergedNode {
        number,
        title: format!("PR {number}"),
        url: format!("https://x/{number}"),
        author: Some(Login {
            login: author.to_string(),
        }),
        merged_at: Some(merged_at.to_string()),
        updated_at: None,
    }
}

#[test]
fn merged_rows_sort_desc_and_cap() {
    let rows = reviews::build_merged_rows(
        vec![
            reviewed_node(1, "a", "2026-06-10T00:00:00Z"),
            reviewed_node(2, "b", "2026-06-18T00:00:00Z"),
            reviewed_node(3, "c", "2026-06-14T00:00:00Z"),
        ],
        2,
    );
    assert_eq!(rows.len(), 2);
    assert_eq!(rows[0].number, 2);
    assert_eq!(rows[0].author, "b");
    assert_eq!(rows[1].number, 3);
    let table = reviews::merged_to_table(&rows, true);
    assert_eq!(table.rows[0][1].text, "m");
    assert_eq!(table.rows[0][4].text, "b");
}

#[test]
fn review_drafts_can_be_left_out() {
    let mut draft = node(1, "a", None, &[]);
    draft.is_draft = true;
    let rows = reviews::build_open_rows(ReviewsData {
        requested: ReviewSearch {
            nodes: vec![draft, node(2, "b", None, &[])],
        },
        reviewed: ReviewSearch { nodes: vec![] },
    });
    let kept = reviews::without_drafts(rows);
    assert_eq!(kept.iter().map(|r| r.number).collect::<Vec<_>>(), [2]);
}

// Answers of the server, as the program hands them over.

fn populated() -> QueueData {
    let mut ghost = queue_node(3, 103, "x");
    ghost.pull_request.author = None;
    let mut mine = queue_node(1, 101, "caarlos0");
    mine.pull_request.url = "https://github.com/octo/repo/pull/101".to_string();
    QueueData {
        repository: Some(QueueRepo {
            merge_queue: Some(MergeQueue {
                entries: QueueEntries {
                    nodes: vec![queue_node(2, 102, "octocat"), mine, ghost],
                },
            }),
        }),
    }
}

#[test]
fn queue_parses_orders_and_flags_mine() {
    let rows = queue::build_rows(queue_nodes(populated()), "caarlos0");
    assert_eq!(
        rows.iter().map(|r| r.position).collect::<Vec<_>>(),
        vec![1, 2, 3]
    );
    assert!(rows[0].mine);
    assert_eq!(rows[0].number, 101);
    assert!(!rows[1].mine);
    assert_eq!(rows[2].author, "ghost");
    assert!(!rows[2].mine);
}

#[test]
fn queue_null_and_empty_both_yield_no_rows() {
    let null = QueueData {
        repository: Some(QueueRepo { merge_queue: None }),
    };
    let empty = QueueData {
        repository: Some(QueueRepo {
            merge_queue: Some(MergeQueue {
                entries: QueueEntries { nodes: vec![] },
            }),
        }),
    };
    assert!(queue_nodes(null).is_empty());
    assert!(queue_nodes(empty).is_empty());
    assert!(queue_nodes(QueueData { repository: None }).is_empty());
}

#[test]
fn queue_styled_render_uses_palette_and_links() {
    let rows = queue::build_rows(queue_nodes(populated()), "caarlos0");
    let out = render::render_table(&queue::to_table(&rows, false), true);
    assert!(out.contains("38;2;249;226;175"), "expected mine yellow");
    assert!(out.contains("38;2;137;180;250"), "expected not-mine blue");
    assert!(out.contains("\x1b]8;;https://github.com/octo/repo/pull/101\x1b\\"));
}

fn mine() -> Vec<PrNode> {
    vec![
        pr(5323, "CONFLICTING", "DIRTY", &[]),
        pr(6656, "MERGEABLE", "BLOCKED", &[Some("SUCCESS"), None]),
        pr(
            6475,
            "CONFLICTING",
            "DIRTY",
            &[Some("FAILURE"), Some("CANCELLED"), Some("TIMED_OUT")],
        ),
    ]
}

#[test]
fn mine_parses_sorts_and_derives_status_and_fail() {
    let rows = prs::build_rows(mine());
    assert_eq!(
        rows.iter().map(|r| r.number).collect::<Vec<_>>(),
        vec![6656, 6475, 5323]
    );
    assert_eq!(rows[0].status, Some(Status::Pending));
    assert_eq!(rows[0].fail, 0);
    assert_eq!(rows[1].status, Some(Status::Conflicts));
    assert_eq!(rows[1].fail, 3);
    assert_eq!(rows[2].status, Some(Status::Conflicts));
    assert_eq!(rows[2].fail, 0);
}

#[test]
fn mine_ascii_status_letters() {
    let rows = prs::build_rows(mine());
    let table = prs::to_table(&rows, true, &HashSet::new());
    let st: Vec<&str> = table.rows.iter().map(|r| r[1].text.as_str()).collect();
    assert_eq!(st, vec![".", "!", "!"]);
}

#[test]
fn mine_empty_yields_no_rows() {
    assert!(prs::build_rows(vec![]).is_empty());
}

#[test]
fn merged_parses_sorts_desc_and_caps() {
    let rows = merged::build_rows(
        vec![
            merged_node(6600, "2026-06-10T00:00:00Z"),
            merged_node(6649, "2026-06-19T00:00:00Z"),
            merged_node(6601, "2026-06-11T00:00:00Z"),
            merged_node(6602, "2026-06-12T00:00:00Z"),
            merged_node(6603, "2026-06-13T00:00:00Z"),
        ],
        4,
        &ReleaseMap::new(),
    );
    assert_eq!(rows.len(), 4);
    assert_eq!(rows[0].number, 6649);
    let ts: Vec<&Option<String>> = rows.iter().map(|r| &r.merged_at).collect();
    assert!(ts.windows(2).all(|w| w[0] >= w[1]));
}

#[test]
fn merged_empty_yields_no_rows() {
    assert!(merged::build_rows(vec![], 4, &ReleaseMap::new()).is_empty());
}
