use prowl::cli::{parse_duration, Dur, DurationError, Pane, ReviewScope};
use prowl::commits::{
    assemble, commit_pr, compare_mine, compare_path, mine_in, pr_number, ranges, Author,
    CommitMeta, CommitNode, CommitPager, CommitStats, Comparison, Count, ReleaseInfo, ReleasePager,
    Tag, Tally,
};
use prowl::gh;
use prowl::github::{self, parse_graphql, parse_remote, GraphqlError, Repo};
use prowl::model;
use prowl::term::{
    after_poll, bytes_read, classify, parse_search, poll_timeout, read_search, wait, AfterPoll, SearchKey,
    Wait,
};
use prowl::text::{decimal, decimal_signed, line_one, trimmed};
use prowl::timefmt::{
    age_at, age_of, eta, hms, now, now_hms, parse_ts, relative_age, since_date, since_date_at, Timestamp,
};

#[test]
fn parses_units() {
    assert_eq!(parse_duration("30s").unwrap(), 30);
    assert_eq!(parse_duration("10m").unwrap(), 600);
    assert_eq!(parse_duration("2h").unwrap(), 7200);
    assert_eq!(parse_duration("7d").unwrap(), 604_800);
    assert_eq!(parse_duration("2w").unwrap(), 1_209_600);
    assert_eq!(parse_duration("45").unwrap(), 45);
}

#[test]
fn rejects_bad_durations() {
    for bad in ["", "abc", "10x", "m"] {
        assert!(parse_duration(bad).is_err(), "expected `{bad}` to fail");
    }
}

#[test]
fn durations_say_what_is_wrong() {
    assert_eq!(parse_duration("  "), Err(DurationError::Empty));
    assert_eq!(
        parse_duration(" m "),
        Err(DurationError::Number("m".to_string()))
    );
    assert_eq!(
        parse_duration("10x"),
        Err(DurationError::Unit("x".to_string()))
    );
    assert_eq!(
        parse_duration("1 h"),
        Err(DurationError::Number("1 h".to_string()))
    );
    assert_eq!(
        parse_duration("18446744073709551615w").unwrap_err().message(),
        "invalid duration `18446744073709551615w`"
    );
    assert_eq!(
        parse_duration("10x").unwrap_err().message(),
        "invalid duration unit `x` (use s/m/h/d/w)"
    );
    assert_eq!(parse_duration("").unwrap_err().message(), "empty duration");
}

#[test]
fn durations_take_long_units_and_remember_their_text() {
    assert_eq!(parse_duration("3mins").unwrap(), 180);
    assert_eq!(parse_duration("+2hrs").unwrap(), 7200);
    assert_eq!(parse_duration("1day").unwrap(), 86_400);
    assert_eq!(parse_duration("18446744073709551615").unwrap(), u64::MAX);
    let d: Dur = " 48h ".parse().unwrap();
    assert_eq!((d.secs, d.raw.as_str()), (172_800, "48h"));
    assert_eq!("q".parse::<Dur>().unwrap_err(), "invalid duration `q`");
}

#[test]
fn panes_toggle_and_scopes_qualify() {
    assert_eq!(Pane::Mine.toggle(), Pane::Reviews);
    assert_eq!(Pane::Mine.toggle().toggle(), Pane::Mine);
    assert_eq!(ReviewScope::All.qualifier(), "review-requested");
    assert_eq!(ReviewScope::Direct.qualifier(), "user-review-requested");
}

fn commit(login: Option<&str>, message: &str) -> CommitNode {
    CommitNode {
        author: login.map(|login| Author {
            login: login.to_string(),
        }),
        commit: CommitMeta {
            message: message.to_string(),
        },
    }
}

#[test]
fn parses_trailing_pr_number() {
    assert_eq!(pr_number("feat: thing (#12)"), Some(12));
    assert_eq!(pr_number("chore: bump  (#7)\n"), Some(7));
    assert_eq!(pr_number("no reference here"), None);
    assert_eq!(pr_number("mid (#3) ref"), None);
    assert_eq!(pr_number("oops (#x)"), None);
}

#[test]
fn the_last_reference_counts_and_must_fit() {
    assert_eq!(pr_number("revert (#1) (#2)"), Some(2));
    assert_eq!(pr_number("(#4294967295)"), Some(u32::MAX));
    assert_eq!(pr_number("(#4294967296)"), None);
    assert_eq!(pr_number("(#)"), None);
    assert_eq!(pr_number(")"), None);
    assert_eq!(commit_pr(&commit(None, "a (#5)\r\nb (#6)")), Some(5));
    assert_eq!(commit_pr(&commit(None, "")), None);
}

#[test]
fn counts_my_commits_and_their_prs() {
    let commits = vec![
        commit(Some("caarlos0"), "feat: a (#10)"),
        commit(Some("octocat"), "feat: b (#11)"),
        commit(None, "direct commit"),
        commit(Some("caarlos0"), "fix: c (#12)\n\nbody"),
    ];
    let (count, prs) = mine_in(&commits, 4, "caarlos0");
    assert_eq!(count.mine, 2);
    assert!(!count.capped);
    assert_eq!(prs, vec![10, 12]);
}

#[test]
fn flags_capped_when_range_truncated() {
    let (count, _) = mine_in(&[commit(Some("caarlos0"), "x (#1)")], 300, "caarlos0");
    assert!(count.capped);
}

fn repo() -> Repo {
    Repo {
        owner: "o".to_string(),
        name: "n".to_string(),
    }
}

fn release(tag: &str, draft: bool, prerelease: bool) -> ReleaseInfo {
    ReleaseInfo {
        tag_name: tag.to_string(),
        draft,
        prerelease,
        published_at: None,
    }
}

#[test]
fn releases_are_looked_for_page_by_page() {
    let mut pager = ReleasePager::new();
    assert_eq!(
        pager.path(&repo()),
        "repos/o/n/releases?per_page=50&page=1"
    );
    let page: Vec<ReleaseInfo> = (0..50).map(|i| release(&format!("r{i}"), false, true)).collect();
    pager.accept(&page, false);
    assert!(!pager.done);
    assert!(pager.tags.is_empty());
    assert_eq!(pager.path(&repo()), "repos/o/n/releases?per_page=50&page=2");
    pager.accept(
        &vec![
            release("d", true, false),
            release("v2", false, false),
            release("rc", false, true),
        ],
        false,
    );
    assert!(pager.done);
    assert_eq!(pager.tags.len(), 1);
    assert_eq!(pager.tags[0].name, "v2");

    let mut pager = ReleasePager::new();
    pager.accept(&page, true);
    assert!(pager.done);
    assert_eq!(pager.tags.len(), 50);

    let mut pager = ReleasePager::new();
    for _ in 0..19 {
        pager.accept(&page, false);
        assert!(!pager.done);
    }
    pager.accept(&page, false);
    assert!(pager.done);
}

#[test]
fn reachable_commits_are_counted_page_by_page() {
    let full: Vec<CommitNode> = (0..100).map(|_| commit(Some("me"), "x (#1)")).collect();
    let mut pager = CommitPager::new();
    assert_eq!(
        pager.path(&repo(), "me", "main"),
        "repos/o/n/commits?sha=main&author=me&per_page=100&page=1"
    );
    pager.accept(&full);
    assert_eq!(pager.count, None);
    pager.accept(&vec![commit(None, "y (#2)")]);
    assert_eq!(
        pager.count,
        Some(Count {
            mine: 101,
            capped: false
        })
    );
    assert_eq!(pager.prs.len(), 101);
    assert_eq!(pager.prs[100], 2);

    let mut pager = CommitPager::new();
    for _ in 0..5 {
        pager.accept(&full);
    }
    assert_eq!(
        pager.count,
        Some(Count {
            mine: 500,
            capped: true
        })
    );
}

#[test]
fn answers_come_to_counts_and_a_map() {
    let tags: Vec<Tag> = ["v3", "v2"]
        .iter()
        .map(|t| Tag {
            name: t.to_string(),
            published_at: Some(format!("{t}-date")),
        })
        .collect();
    let wanted = ranges(&tags, "main");
    let shape: Vec<(Option<&str>, &str)> = wanted
        .iter()
        .map(|r| (r.base.as_deref(), r.head.as_str()))
        .collect();
    assert_eq!(
        shape,
        [(Some("v3"), "main"), (Some("v2"), "v3"), (None, "v2")]
    );
    let tally = |mine: usize, prs: Vec<u32>| Tally {
        count: Count {
            mine,
            capped: false,
        },
        prs,
    };
    let (stats, map) = assemble(
        &repo(),
        &tags,
        "main",
        &vec![tally(1, vec![9]), tally(2, vec![7, 8]), tally(3, vec![8, 6])],
    );
    assert!(stats.available);
    let up = stats.upcoming.as_ref().unwrap();
    assert_eq!(up.url, "https://github.com/o/n/compare/v3...main");
    assert_eq!(stats.releases.len(), 2);
    assert_eq!(stats.releases[1].tag, "v2");
    assert_eq!(stats.releases[1].bucket.count.mine, 3);
    assert_eq!(
        stats.releases[0].bucket.url,
        "https://github.com/o/n/releases/tag/v3"
    );
    assert_eq!(
        stats.releases[0].published_at.as_deref(),
        Some("v3-date")
    );
    // Work since the latest release has not shipped.
    assert!(!map.contains_key(&9));
    assert_eq!(map[&7].tag, "v3");
    // Both ranges name it: it shipped in the earlier release.
    assert_eq!(map[&8].tag, "v2");
    assert_eq!(map[&6].url, "https://github.com/o/n/releases/tag/v2");
    assert_eq!(map.len(), 3);
}

#[test]
fn a_change_ships_in_its_earliest_release() {
    let tag = |name: &str| Tag {
        name: name.to_string(),
        published_at: None,
    };
    let tags = vec![tag("v2"), tag("v1"), tag("v0")];
    let tally = |prs: Vec<u32>| Tally {
        count: Count {
            mine: 1,
            capped: false,
        },
        prs,
    };
    let (_, map) = assemble(
        &repo(),
        &tags,
        "main",
        &vec![tally(vec![7]), tally(vec![7, 5]), tally(vec![7]), tally(vec![3])],
    );
    assert_eq!(map[&7].tag, "v1");
    assert_eq!(map[&7].url, "https://github.com/o/n/releases/tag/v1");
    assert_eq!(map[&5].tag, "v2");
    assert_eq!(map[&3].tag, "v0");
    assert_eq!(map.len(), 3);
}

#[test]
fn without_releases_the_whole_branch_is_upcoming() {
    let (stats, map) = assemble(
        &repo(),
        &vec![],
        "main",
        &vec![Tally {
            count: Count {
                mine: 4,
                capped: true,
            },
            prs: vec![1],
        }],
    );
    assert_eq!(
        stats.upcoming.unwrap().url,
        "https://github.com/o/n/commits/main"
    );
    assert!(map.is_empty());
    assert!(!CommitStats::unavailable().available);
}

#[test]
fn comparisons_are_asked_for_and_counted() {
    assert_eq!(
        compare_path(&repo(), "v1", "main"),
        "repos/o/n/compare/v1...main"
    );
    let answer = Comparison {
        total_commits: 2,
        commits: vec![commit(Some("me"), "x (#3)"), commit(Some("you"), "y (#4)")],
    };
    let (count, prs) = compare_mine(&answer, "me");
    assert_eq!((count.mine, count.capped, prs), (1, false, vec![3]));
}

#[test]
fn parses_valid_slug() {
    let r = Repo::parse("goreleaser/goreleaser").unwrap();
    assert_eq!(r.owner, "goreleaser");
    assert_eq!(r.name, "goreleaser");
    assert_eq!(r.slug(), "goreleaser/goreleaser");
}

#[test]
fn rejects_bad_slugs() {
    for bad in ["", "noslash", "a/b/c", "/name", "owner/"] {
        assert!(Repo::parse(bad).is_err(), "expected `{bad}` to be rejected");
    }
}

#[test]
fn parses_remote_forms() {
    for url in [
        "https://github.com/goreleaser/goreleaser.git",
        "https://github.com/goreleaser/goreleaser",
        "git@github.com:goreleaser/goreleaser.git",
        "ssh://git@github.com/goreleaser/goreleaser.git",
    ] {
        let r = parse_remote(url).expect(url);
        assert_eq!(r.owner, "goreleaser");
        assert_eq!(r.name, "goreleaser");
    }
    for url in [
        "https://gitlab.com/a/b.git",
        "https://github.com.evil.tld/a/b.git",
        "https://notgithub.com/a/b.git",
        "git@github.com.evil.tld:a/b.git",
        "ssh://git@notgithub.com/a/b.git",
    ] {
        assert!(parse_remote(url).is_none(), "{url}");
    }
}

#[test]
fn paths_do_not_make_a_host() {
    for url in [
        "https://evil.tld/@github.com/a/b",
        "https://evil.tld/x@github.com/a/b.git",
        "https://evil.tld?@github.com/a/b",
        "https://evil.tld#@github.com/a/b",
        "https://github.com@evil.tld/a/b",
        "evil.tld:@github.com/a/b",
        "git@evil.tld:x@github.com/a/b",
        "evil.tld/@github.com:a/b",
        "evil.tld/x://github.com/a/b",
        "https://github.co/m/a",
        "evil.tld?x://github.com/a/b",
        "git@evil.tld://github.com/a/b",
        "a_b://evil.tld/@github.com/a/b",
    ] {
        assert!(parse_remote(url).is_none(), "{url}");
    }
    for url in [
        "https://token@github.com/a/b",
        "git+ssh://git@github.com/a/b",
        "a_b://github.com/a/b",
        "a:b c://git@github.com/a/b",
        "://github.com/a/b",
        "github.com/a/b",
        "github.com:a/b.git",
    ] {
        assert_eq!(parse_remote(url).expect(url).slug(), "a/b");
    }
}

#[test]
fn parses_slug() {
    assert!(Repo::parse("a/b").is_ok());
    for bad in ["", "noslash", "a/b/c", "/b", "a/"] {
        assert!(Repo::parse(bad).is_err(), "{bad}");
    }
}

#[test]
fn bad_slugs_are_echoed() {
    assert_eq!(
        Repo::parse(" x ").unwrap_err().message(),
        "invalid repo ` x `, expected owner/name"
    );
    assert_eq!(Repo::parse("\u{2003}a/b\t").unwrap().slug(), "a/b");
}

#[test]
fn remotes_are_taken_apart_from_both_ends() {
    let r = github::detect_repo(" https://u:p@x@github.com/a/b.git.git\n").unwrap();
    assert_eq!(r.slug(), "a/b");
    assert_eq!(
        github::detect_repo("nowhere ").unwrap_err(),
        "could not parse owner/name from `nowhere`; pass --repo owner/name"
    );
    assert!(parse_remote("github.com").is_none());
    assert!(parse_remote("github.com/").is_none());
    assert!(parse_remote("github.com/a/b/c").is_none());
}

#[test]
fn graphql_answers_are_settled() {
    let none: Option<Result<i32, String>> = None;
    assert_eq!(
        parse_graphql(Some(Ok(3)), Some("e".to_string())),
        Ok(3)
    );
    assert_eq!(
        parse_graphql::<i32>(Some(Err("p".to_string())), Some("e".to_string())),
        Err(GraphqlError::Server("e".to_string()))
    );
    assert_eq!(
        parse_graphql::<i32>(Some(Err("p".to_string())), None),
        Err(GraphqlError::Data("p".to_string()))
    );
    assert_eq!(
        parse_graphql(none, None).unwrap_err().message(),
        "GraphQL response had no data"
    );
    assert_eq!(
        parse_graphql::<i32>(None, Some("e".to_string()))
            .unwrap_err()
            .message(),
        "GraphQL error: e"
    );
    assert_eq!(
        GraphqlError::Data("p".to_string()).message(),
        "failed to parse GraphQL data: p"
    );
}

#[test]
fn failed_requests_are_told_by_their_status() {
    assert_eq!(
        github::api_message(Some(401), "x"),
        "GitHub rejected the token (401); run `prowl --login`"
    );
    assert_eq!(github::api_message(Some(500), "x"), "GitHub request failed: x");
    assert_eq!(github::api_message(None, "y"), "GitHub request failed: y");
    assert_eq!(github::bearer("t"), "Bearer t");
    assert_eq!(github::repo_path(&repo()), "repos/o/n");
}

#[test]
fn the_command_is_asked_and_its_output_read() {
    let vars = vec![gh::Var {
        key: "q".to_string(),
        value: "is:pr".to_string(),
    }];
    let args = gh::graphql_args(&vars, "{ x }");
    assert_eq!(
        args,
        ["api", "graphql", "-f", "q=is:pr", "-f", "query={ x }"]
    );
    assert_eq!(
        gh::failure_message(&args, "exit status: 1", "  boom \n"),
        "`gh api graphql` failed: boom"
    );
    assert_eq!(
        gh::failure_message(&vec!["api".to_string()], "exit status: 1", " "),
        "`gh api` failed (exit status: 1)"
    );
    assert_eq!(gh::me(" caarlos0\n").unwrap(), "caarlos0");
    assert_eq!(
        gh::me("\n").unwrap_err(),
        "could not determine the current user from `gh api user`"
    );
    assert_eq!(gh::default_branch(&repo(), "main\n").unwrap(), "main");
    assert_eq!(
        gh::default_branch(&repo(), "").unwrap_err(),
        "could not determine the default branch for o/n"
    );
    assert_eq!(
        gh::detect_repo(Some("a/b\n")).unwrap().unwrap().slug(),
        "a/b"
    );
    assert!(gh::detect_repo(Some("ab\n")).unwrap().is_err());
    assert!(gh::detect_repo(Some(" ")).is_none());
    assert!(gh::detect_repo(None).is_none());
}

#[test]
fn searches_and_queries_are_exact() {
    let r = repo();
    assert_eq!(
        model::mine_search(&r, "me"),
        "repo:o/n is:pr is:open author:me archived:false sort:updated-desc"
    );
    assert_eq!(
        model::merged_search(&r, "me", "2026-06-01"),
        "repo:o/n is:pr is:merged author:me merged:>=2026-06-01 sort:updated-desc"
    );
    assert_eq!(
        model::reviewed_merged_search(&r, "me", "2026-06-01"),
        "repo:o/n is:pr is:merged reviewed-by:me -author:me merged:>=2026-06-01 sort:updated-desc"
    );
    let (requested, reviewed) = model::reviews_searches(&r, "me", "review-requested");
    assert_eq!(
        requested,
        "repo:o/n is:pr is:open review-requested:me -author:me archived:false sort:updated-desc"
    );
    assert_eq!(
        reviewed,
        "repo:o/n is:pr is:open reviewed-by:me -author:me archived:false sort:updated-desc"
    );
    assert!(model::merged_query(0).contains("first: 1,"));
    assert!(model::merged_query(20).contains("first: 20,"));
    assert!(model::merged_query(500).contains("first: 100,"));
}

#[test]
fn requests_carry_their_variables() {
    let q = model::fetch_queue(&repo());
    assert_eq!(q.query, model::QUEUE_QUERY);
    let pairs: Vec<(&str, &str)> = q
        .vars
        .iter()
        .map(|v| (v.key.as_str(), v.value.as_str()))
        .collect();
    assert_eq!(pairs, [("owner", "o"), ("name", "n")]);
    let q = model::fetch_my_prs(&repo(), "me");
    assert_eq!(q.vars[0].value, model::mine_search(&repo(), "me"));
    let q = model::fetch_merged(&repo(), "me", "d", 7);
    assert_eq!(q.query, model::merged_query(7));
    let q = model::fetch_reviewed_merged(&repo(), "me", "d", 7);
    assert_eq!(
        q.vars[0].value,
        model::reviewed_merged_search(&repo(), "me", "d")
    );
    let q = model::fetch_reviews(&repo(), "me", "user-review-requested");
    assert_eq!(q.vars.len(), 3);
    assert_eq!(q.vars[0].value, "me");
    assert!(q.vars[1].value.contains("user-review-requested:me"));
}

#[test]
fn classify_maps_keys_to_actions() {
    assert_eq!(classify(b"\r"), Some(Wait::Open));
    assert_eq!(classify(b"\n"), Some(Wait::Open));
    assert_eq!(classify(b"o"), None);
    assert_eq!(classify(b"O"), None);

    assert_eq!(classify(b"r"), Some(Wait::Refresh));
    assert_eq!(classify(b"\t"), Some(Wait::SwitchView));
    assert_eq!(classify(b"?"), Some(Wait::ToggleHelp));
    assert_eq!(classify(b"/"), Some(Wait::Search));
    assert_eq!(classify(b"g"), Some(Wait::Top));
    assert_eq!(classify(b"G"), Some(Wait::Bottom));
    assert_eq!(classify(b"\x04"), Some(Wait::HalfDown));
    assert_eq!(classify(b"\x15"), Some(Wait::HalfUp));

    assert_eq!(classify(b"k"), Some(Wait::Up));
    assert_eq!(classify(b"j"), Some(Wait::Down));
    assert_eq!(classify(b"\x1b[A"), Some(Wait::Up));
    assert_eq!(classify(b"\x1b[B"), Some(Wait::Down));

    assert_eq!(classify(b"\x1b"), Some(Wait::Cancel));
    assert_eq!(classify(b"\x1b[C"), None);

    assert_eq!(classify(b"x"), None);
}

#[test]
fn parse_search_reads_text_and_edits() {
    assert_eq!(parse_search(b"foo"), vec![SearchKey::Char('f'), SearchKey::Char('o'), SearchKey::Char('o')]);
    assert_eq!(
        parse_search(b"a\x7fb\r"),
        vec![SearchKey::Char('a'), SearchKey::Backspace, SearchKey::Char('b'), SearchKey::Enter]
    );
    assert_eq!(parse_search(b"\x1b"), vec![SearchKey::Esc]);
    assert_eq!(parse_search(b"a\x1b[Bb"), vec![SearchKey::Char('a'), SearchKey::Char('b')]);
}

#[test]
fn bursts_are_read_by_priority() {
    assert_eq!(classify(b"xj\x1b[Ar\r"), Some(Wait::Open));
    assert_eq!(classify(b"\x1b[Ar"), Some(Wait::Refresh));
    assert_eq!(classify(b"\x1b\x1b"), None);
    assert_eq!(classify(b""), None);
    assert_eq!(parse_search(b"\x1b["), vec![]);
    assert_eq!(parse_search(b"\x01\xff"), vec![]);
    assert_eq!(wait(None), Some(Wait::Tick));
    assert_eq!(wait(Some(b"z")), None);
    assert_eq!(read_search(None), vec![SearchKey::Tick]);
    assert_eq!(read_search(Some(b"a")), vec![SearchKey::Char('a')]);
}

#[test]
fn polls_are_bounded_and_judged() {
    assert_eq!(poll_timeout(0), None);
    assert_eq!(poll_timeout(1), Some(0));
    assert_eq!(poll_timeout(2_500_000), Some(2));
    assert_eq!(poll_timeout(u128::MAX), Some(i32::MAX));
    assert_eq!(after_poll(1, false), AfterPoll::Read);
    assert_eq!(after_poll(0, true), AfterPoll::TimedOut);
    assert_eq!(after_poll(-1, true), AfterPoll::Retry);
    assert_eq!(after_poll(-1, false), AfterPoll::SleepOut);
    assert_eq!(bytes_read(3), Some(3));
    assert_eq!(bytes_read(0), None);
    assert_eq!(bytes_read(-1), None);
}

#[test]
fn eta_buckets_seconds_minutes_hours() {
    let s = |secs: u64| eta(secs);
    assert_eq!(s(30), "30s");
    assert_eq!(s(59), "59s");
    assert_eq!(s(60), "1m");
    assert_eq!(s(300), "5m");
    assert_eq!(s(90), "2m");
    assert_eq!(s(3_600), "1h");
    assert_eq!(s(7_200), "2h");
    assert_eq!(s(5_400), "1h30m");
}

#[test]
fn eta_rolls_full_hours_up() {
    assert_eq!(eta(0), "0s");
    assert_eq!(eta(89), "1m");
    assert_eq!(eta(3_569), "59m");
    assert_eq!(eta(3_570), "1h");
    assert_eq!(eta(3_599), "1h");
    assert_eq!(eta(3_629), "1h");
    assert_eq!(eta(3_630), "1h1m");
    assert_eq!(eta(7_169), "1h59m");
    assert_eq!(eta(7_199), "2h");
    assert_eq!(eta(u64::MAX), "5124095576030431h");
}

#[test]
fn leap_seconds_are_counted() {
    // Within the leap second itself.
    assert_eq!(
        relative_age(at("2016-12-31T23:59:60Z"), at("2016-12-31T23:59:00Z")),
        "1m"
    );
    // From a leap second to later on the day.
    assert_eq!(
        relative_age(at("2026-06-19T12:00:59Z"), at("2026-06-19T11:59:60Z")),
        "1m"
    );
    // Into the next day.
    assert_eq!(
        relative_age(at("2017-01-01T00:00:59Z"), at("2016-12-31T23:59:60Z")),
        "just now"
    );
}

fn at(s: &str) -> Timestamp {
    parse_ts(s).unwrap()
}

#[test]
fn relative_age_buckets() {
    let now = at("2026-06-19T12:00:00Z");
    assert_eq!(relative_age(now, at("2026-06-19T11:59:30Z")), "just now");
    assert_eq!(relative_age(now, at("2026-06-19T11:55:00Z")), "5m");
    assert_eq!(relative_age(now, at("2026-06-19T10:00:00Z")), "2h");
    assert_eq!(relative_age(now, at("2026-06-16T12:00:00Z")), "3d");
    assert_eq!(relative_age(now, at("2026-06-12T12:00:00Z")), "1w");
    assert_eq!(relative_age(now, at("2026-06-19T12:05:00Z")), "just now");
}

#[test]
fn timestamps_are_read_with_their_offsets() {
    assert_eq!(
        at("1970-01-01T01:00:00.5+00:30"),
        Timestamp {
            secs: 1800,
            nanos: 500_000_000
        }
    );
    assert_eq!(parse_ts("yesterday"), None);
    // A fraction of a second is dropped, not rounded.
    assert_eq!(
        relative_age(at("2026-06-19T12:01:00Z"), at("2026-06-19T12:00:00.5Z")),
        "just now"
    );
    assert_eq!(
        relative_age(at("2026-06-19T12:01:00Z"), at("2026-06-19T12:00:00Z")),
        "1m"
    );
}

#[test]
fn ages_without_a_timestamp_are_unknown() {
    assert_eq!(age_of(None), "?");
    assert_eq!(age_of(Some("garbage")), "?");
    assert_eq!(age_of(Some("9999-01-01T00:00:00Z")), "just now");
    assert_eq!(
        age_at(
            at("2026-06-19T12:00:00Z"),
            &Some("2026-06-19T10:00:00Z".to_string())
        ),
        "2h"
    );
}

#[test]
fn the_merged_search_starts_at_a_date() {
    let dur = |s: &str| Dur::parse(s).unwrap();
    let now = at("2026-06-19T12:00:00Z");
    assert_eq!(since_date_at(&dur("2d"), now), "2026-06-17");
    assert_eq!(since_date_at(&dur("13h"), now), "2026-06-18");
    // A window too long to subtract counts as a week.
    assert_eq!(since_date_at(&dur("18446744073709551615"), now), "2026-06-12");
    assert_eq!(since_date(&dur("1w")).len(), 10);
}

#[test]
fn clocks_are_sane() {
    assert!(now().secs > 1_700_000_000);
    let clock = now_hms();
    let parts: Vec<u32> = clock.split(':').map(|p| p.parse().unwrap()).collect();
    assert_eq!(parts.len(), 3);
    assert_eq!(hms(parts[0], parts[1], parts[2]), clock);
}

#[test]
fn times_of_day_have_two_digits_each() {
    assert_eq!(hms(0, 0, 0), "00:00:00");
    assert_eq!(hms(9, 5, 30), "09:05:30");
    assert_eq!(hms(23, 59, 59), "23:59:59");
}

#[test]
fn texts_are_trimmed_and_numbers_written() {
    assert_eq!(trimmed(" \u{3000}a b\n"), "a b");
    assert_eq!(trimmed(" \t"), "");
    assert_eq!(decimal(0), "0");
    assert_eq!(decimal(u128::MAX), u128::MAX.to_string());
    assert_eq!(decimal_signed(i64::MIN), i64::MIN.to_string());
    assert_eq!(decimal_signed(-7), "-7");
    assert_eq!(line_one("a\r\nb"), "a");
    assert_eq!(line_one("a\r"), "a\r");
    assert_eq!(line_one("\nb"), "");
}
