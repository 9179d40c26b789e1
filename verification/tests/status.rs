use prowl::model::{CheckRuns, CheckSuite, CheckSuites, Commit, CommitNode, Commits, PrNode};
use prowl::status::{
    derive_status, fail_count, fg, glyph, last_suites, pr_status, review_glyph, review_style,
    state_glyph, state_label, state_meaning, state_style, status_ascii, status_meaning,
    status_style, ReviewState, Status, Style, FAIL_CONCLUSIONS, GREEN, ORDER, RED, REVIEW_ORDER,
    STATE_ORDER, YELLOW,
};

fn suites(concls: &[Option<&str>]) -> Vec<CheckSuite> {
    concls
        .iter()
        .map(|c| CheckSuite {
            conclusion: c.map(str::to_string),
            check_runs: Some(CheckRuns { total_count: 1 }),
        })
        .collect()
}

fn suite(conclusion: Option<&str>, runs: u64) -> CheckSuite {
    CheckSuite {
        conclusion: conclusion.map(str::to_string),
        check_runs: Some(CheckRuns { total_count: runs }),
    }
}

#[test]
fn palette_glyphs_and_colors_are_exact() {
    assert_eq!(status_style(Status::Pass), ('\u{F058}', (166, 227, 161)));
    assert_eq!(status_style(Status::Fail), ('\u{F057}', (243, 139, 168)));
    assert_eq!(status_style(Status::Pending), ('\u{F111}', (249, 226, 175)));
    assert_eq!(status_style(Status::Merged), ('\u{E0A0}', (203, 166, 247)));
    assert_eq!(
        status_style(Status::Conflicts),
        ('\u{F071}', (250, 179, 135))
    );
}

#[test]
fn ascii_letters() {
    assert_eq!(status_ascii(Status::Pass), 'P');
    assert_eq!(status_ascii(Status::Fail), 'x');
    assert_eq!(status_ascii(Status::Pending), '.');
    assert_eq!(status_ascii(Status::Merged), 'm');
    assert_eq!(status_ascii(Status::Conflicts), '!');
}

#[test]
fn precedence_is_respected() {
    let s = suites(&[Some("FAILURE")]);
    assert_eq!(
        derive_status(Some("MERGED"), Some("CONFLICTING"), &s),
        Some(Status::Merged)
    );
    assert_eq!(
        derive_status(Some("OPEN"), Some("CONFLICTING"), &s),
        Some(Status::Conflicts)
    );
    let s = suites(&[Some("FAILURE"), None]);
    assert_eq!(
        derive_status(Some("OPEN"), Some("MERGEABLE"), &s),
        Some(Status::Fail)
    );
    let s = suites(&[Some("SUCCESS"), None]);
    assert_eq!(
        derive_status(Some("OPEN"), Some("MERGEABLE"), &s),
        Some(Status::Pending)
    );
    let s = suites(&[Some("SUCCESS"), Some("NEUTRAL")]);
    assert_eq!(
        derive_status(Some("OPEN"), Some("MERGEABLE"), &s),
        Some(Status::Pass)
    );
    assert_eq!(derive_status(Some("OPEN"), Some("MERGEABLE"), &[]), None);
}

#[test]
fn counts_only_failing_conclusions() {
    let s = suites(&[
        Some("SUCCESS"),
        Some("FAILURE"),
        Some("CANCELLED"),
        Some("STARTUP_FAILURE"),
        Some("TIMED_OUT"),
        Some("ACTION_REQUIRED"),
        None,
        Some("NEUTRAL"),
    ]);
    assert_eq!(fail_count(&s), 5);
}

#[test]
fn timed_out_counts_as_failure() {
    let s = suites(&[Some("TIMED_OUT")]);
    assert_eq!(fail_count(&s), 1);
    assert_eq!(
        derive_status(Some("OPEN"), Some("MERGEABLE"), &s),
        Some(Status::Fail)
    );
}

#[test]
fn phantom_zero_run_suites_are_ignored() {
    let s = vec![
        suite(Some("SUCCESS"), 22),
        suite(Some("SUCCESS"), 35),
        suite(Some("FAILURE"), 0),
        suite(Some("FAILURE"), 0),
        suite(None, 0),
        suite(None, 0),
    ];
    assert_eq!(fail_count(&s), 0);
    assert_eq!(
        derive_status(Some("OPEN"), Some("MERGEABLE"), &s),
        Some(Status::Pass)
    );
    let s = vec![suite(Some("SUCCESS"), 3), suite(Some("FAILURE"), 1)];
    assert_eq!(fail_count(&s), 1);
    assert_eq!(
        derive_status(Some("OPEN"), Some("MERGEABLE"), &s),
        Some(Status::Fail)
    );
    let s = vec![suite(Some("FAILURE"), 0), suite(None, 0)];
    assert_eq!(derive_status(Some("OPEN"), Some("MERGEABLE"), &s), None);
}

#[test]
fn zero_run_startup_failure_counts_as_failing() {
    let s = vec![suite(Some("SUCCESS"), 4), suite(Some("STARTUP_FAILURE"), 0)];
    assert_eq!(fail_count(&s), 1);
    assert_eq!(
        derive_status(Some("OPEN"), Some("MERGEABLE"), &s),
        Some(Status::Fail)
    );
    let s = vec![suite(Some("STARTUP_FAILURE"), 0)];
    assert_eq!(
        derive_status(Some("OPEN"), Some("MERGEABLE"), &s),
        Some(Status::Fail)
    );
}

#[test]
fn state_styles_match_palette() {
    assert_eq!(state_style("CLEAN"), fg(GREEN));
    assert_eq!(state_style("UNSTABLE"), fg(YELLOW));
    assert_eq!(state_style("BLOCKED"), fg(YELLOW));
    assert_eq!(state_style("DIRTY"), fg(RED));
    assert_eq!(state_style("WHATEVER"), Style::new().dimmed());
}

#[test]
fn dirty_is_labelled_conflicts() {
    assert_eq!(state_label("DIRTY"), "CONFLICTS");
    assert_eq!(state_label("CLEAN"), "CLEAN");
    assert_eq!(state_label("BLOCKED"), "BLOCKED");
}

#[test]
fn state_glyphs_are_distinct_from_status_glyphs() {
    let states = [
        "CLEAN", "UNSTABLE", "BLOCKED", "BEHIND", "DIRTY", "DRAFT", "UNKNOWN",
    ];
    let status_glyphs: Vec<char> = ORDER.iter().map(|s| status_style(*s).0).collect();
    for st in states {
        let g = state_glyph(st);
        assert!(
            !status_glyphs.contains(&g),
            "state glyph for {st} collides with a status glyph"
        );
    }
    assert_eq!(state_glyph("CLEAN"), '\u{f00c}');
    assert_eq!(state_glyph("DIRTY"), '\u{f127}');
}

#[test]
fn every_state_has_a_meaning_and_other_texts_have_none() {
    for st in STATE_ORDER {
        assert!(!state_meaning(st).is_empty(), "{st}");
    }
    assert_eq!(state_meaning("DIRTY"), "merge conflict");
    assert_eq!(state_meaning("dirty"), "");
    assert_eq!(
        status_meaning(Status::Conflicts),
        "merge conflict; needs a rebase"
    );
}

#[test]
fn every_failing_conclusion_counts_when_it_ran() {
    for c in FAIL_CONCLUSIONS {
        assert_eq!(fail_count(&[suite(Some(c), 1)]), 1, "{c}");
    }
    // Only a failure to start counts without a run.
    let zero: usize = FAIL_CONCLUSIONS
        .iter()
        .map(|c| fail_count(&[suite(Some(*c), 0)]))
        .sum();
    assert_eq!(zero, 1);
}

#[test]
fn hidden_runs_count_as_none() {
    let hidden = CheckSuite {
        conclusion: Some("FAILURE".to_string()),
        check_runs: None,
    };
    assert_eq!(fail_count(&[hidden]), 0);
}

fn pr_with(total: u64, nodes: Vec<CheckSuite>) -> PrNode {
    PrNode {
        number: 1,
        title: "t".to_string(),
        url: "u".to_string(),
        state: Some("OPEN".to_string()),
        mergeable: Some("MERGEABLE".to_string()),
        merge_state_status: None,
        is_draft: false,
        updated_at: None,
        merge_queue_entry: None,
        commits: Commits {
            nodes: vec![CommitNode {
                commit: Commit {
                    check_suites: CheckSuites {
                        total_count: total,
                        nodes,
                    },
                },
            }],
        },
    }
}

#[test]
fn a_pass_needs_the_whole_page() {
    let pr = pr_with(1, suites(&[Some("SUCCESS")]));
    assert_eq!(pr_status(&pr), Some(Status::Pass));
    let pr = pr_with(2, suites(&[Some("SUCCESS")]));
    assert_eq!(pr_status(&pr), Some(Status::Pending));
    // A failure is a failure on any page.
    let pr = pr_with(2, suites(&[Some("FAILURE")]));
    assert_eq!(pr_status(&pr), Some(Status::Fail));
}

#[test]
fn a_pull_request_without_commits_has_no_suites() {
    let mut pr = pr_with(1, suites(&[Some("SUCCESS")]));
    pr.commits.nodes.clear();
    assert!(last_suites(&pr).is_empty());
    assert_eq!(pr_status(&pr), None);
}

#[test]
fn review_states_have_letters_and_glyphs() {
    let letters: Vec<char> = REVIEW_ORDER.iter().map(|s| review_glyph(*s, true)).collect();
    assert_eq!(letters, vec!['a', 'r', 'u', '.']);
    assert_eq!(
        review_glyph(ReviewState::Updated, false),
        review_style(ReviewState::Updated).0
    );
    assert_eq!(glyph(Status::Pass, true), 'P');
    assert_eq!(glyph(Status::Pass, false), '\u{F058}');
}

#[test]
fn styles_build_on_each_other() {
    let s = fg(GREEN).bold().italic().underline().on(RED).dimmed();
    assert_eq!(
        s,
        Style {
            fg: Some(GREEN),
            bg: Some(RED),
            bold: true,
            faint: true,
            italic: true,
            underline: true,
        }
    );
}
