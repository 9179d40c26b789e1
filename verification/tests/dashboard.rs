use prowl::canvas::{truncate, Canvas, Limits, Profile};
use prowl::changes::Changes;
use prowl::cli::{Cli, Dur, Pane, ReviewScope, Section};
use prowl::commits::{Bucket, CommitStats, Count, Release};
use prowl::dashboard::{
    compose, mine_selection, paint_body, paint_dashboard, render_dashboard, render_to_string_at,
    Drawn,
};
use prowl::fetch::{fetch, plan, Answers};
use prowl::frame::render_frame;
use prowl::github::Repo;
use prowl::layout::{
    ascii_mode, body_height, bottom_height, height_bound, limited_section_height,
    responsive_layout, section_height, too_small_message, ResponsiveLayout, Visibility,
};
use prowl::merged::MergedRow;
use prowl::nav::{
    clamp, filter, moved, section_at_visible, target_index, targets, targets_visible,
};
use prowl::prs::PrRow;
use prowl::queue::{QueueRow, VisibleRows};
use prowl::render::{
    paint_footer, paint_help, paint_table, render_table, title_width, Cell, Table, MAX_WIDTH,
    MIN_WIDTH, OUTPUT_WIDTH, ROW_INDENT,
};
use prowl::reviews::{ReviewRow, ReviewedMergedRow};
use prowl::status::{self, ReviewState, SURFACE};
use prowl::term::Wait;
use prowl::timefmt::{now, parse_ts, Timestamp};
use prowl::ui::{
    action_for, classify, classify_search, short_error, Action, Event, KeyCode, KeyHits, KeyPress,
    SearchAction,
};
use prowl::watch::{
    fetch_next, half_page, markdown_list, Effect, FetchNext, FetchState, Flow, Size, Watch,
};
use prowl::{render_to_string, Sections, Ui};
use uncurses::buffer::Surface;
use uncurses::color::Color;
use uncurses::layout::Position;

fn noon() -> Timestamp {
    parse_ts("2026-06-19T12:00:00Z").unwrap()
}

fn encode(width: u16, height: u16, profile: Profile, f: impl FnOnce(&mut Canvas)) -> String {
    let mut canvas = Canvas::new(width, height);
    f(&mut canvas);
    canvas.encode(profile)
}

#[test]
fn plain_table_aligns_and_pads() {
    let table = Table {
        header: vec!["PR", "TITLE"],
        rows: vec![
            vec![Cell::plain("#1"), Cell::plain("short")],
            vec![Cell::plain("#42"), Cell::plain("x")],
        ],
    };
    let out = encode(20, 3, Profile::Disabled, |b| {
        paint_table(b, &table, 5, true, 0);
    });
    assert_eq!(out, "PR   TITLE\r\n#1   short\r\n#42  x");
}

#[test]
fn padding_uses_display_width_for_glyphs() {
    let glyph = status::status_style(status::Status::Pass).0;
    let table = Table {
        header: vec!["ST", "PR"],
        rows: vec![
            vec![Cell::plain(&glyph.to_string()), Cell::plain("#1")],
            vec![Cell::plain("xx"), Cell::plain("#2")],
        ],
    };
    let out = encode(10, 3, Profile::Disabled, |b| {
        paint_table(b, &table, 0, true, 0);
    });
    let lines: Vec<&str> = out.split("\r\n").collect();
    let col = |line: &str| {
        line.find('#')
            .map(|i| &line[..i])
            .unwrap_or("")
            .chars()
            .count()
    };
    assert_eq!(col(lines[1]), col(lines[2]));
}

#[test]
fn styled_url_is_an_osc8_hyperlink() {
    let table = Table {
        header: vec!["URL"],
        rows: vec![vec![Cell::link("https://x/1", "https://x/1")]],
    };
    let out = encode(12, 2, Profile::TrueColor, |b| {
        paint_table(b, &table, 0, false, 0);
    });
    assert!(out.contains("\x1b]8;;https://x/1\x1b\\"));
    assert!(out.contains("\x1b]8;;\x1b\\"));
    assert!(out.contains("\x1b[2;4m"));
}

#[test]
fn disabled_profile_drops_styling_and_links() {
    let table = Table {
        header: vec!["URL"],
        rows: vec![vec![Cell::link("https://x/1", "https://x/1")]],
    };
    let out = encode(12, 2, Profile::Disabled, |b| {
        paint_table(b, &table, 0, false, 0);
    });
    assert!(!out.contains('\x1b'));
    assert!(out.contains("https://x/1"));
}

#[test]
fn footer_is_plain_or_styled_key_hints() {
    let plain = encode(40, 1, Profile::Disabled, |b| {
        paint_footer(b, "5m", false, false, true, 0);
    });
    assert_eq!(plain, "r refresh (next in 5m) - ? help");

    let styled = encode(40, 1, Profile::TrueColor, |b| {
        paint_footer(b, "5m", false, false, false, 0);
    });
    assert!(styled.contains("refresh (next in 5m)"));
    assert!(styled.contains("help"));
    assert!(styled.contains("\x1b[1;"));
    assert!(styled.contains("\x1b[2m"));

    let busy = encode(40, 1, Profile::Disabled, |b| {
        paint_footer(b, "5m", true, true, true, 0);
    });
    assert_eq!(busy, "r refreshing - ? help (more)");
}

#[test]
fn truncate_marks_cut_with_ellipsis() {
    assert_eq!(truncate("short", 10, false), "short");
    assert_eq!(truncate("hello world", 8, false), "hello w\u{22ef}");
    assert_eq!(truncate("hello world", 8, true), "hello...");
}

#[test]
fn title_column_is_capped_to_max_width() {
    let long = "x".repeat(200);
    let table = Table {
        header: vec!["", "PR", "TITLE", "BASE"],
        rows: vec![vec![
            Cell::plain(" "),
            Cell::plain("#1"),
            Cell::plain(&long),
            Cell::plain("main"),
        ]],
    };
    let mut canvas = Canvas::new(MAX_WIDTH as u16, 2);
    let tw = title_width(&canvas, &vec![&table]);
    paint_table(&mut canvas, &table, tw, false, 0);
    let out = canvas.encode(Profile::Disabled);
    for line in out.split("\r\n") {
        assert!(line.chars().count() <= MAX_WIDTH, "line exceeds MAX_WIDTH");
    }
    assert!(out.contains('\u{22ef}'));
    assert!(render_table(&table, false).contains("..."));
}

#[test]
fn the_legend_explains_everything() {
    let mut canvas = Canvas::new(80, 20);
    assert_eq!(paint_help(&mut canvas, true, 2), 17);
    let out = canvas.encode(Profile::Disabled);
    assert!(out.contains("Help"));
    assert!(out.contains("  P  all checks that ran passed"));
    assert!(out.contains("  - no checks reported yet"));
    assert!(out.contains("  CONFLICTS \u{2014} merge conflict"));
    let mut canvas = Canvas::new(80, 20);
    paint_help(&mut canvas, false, 0);
    assert!(canvas
        .encode(Profile::Disabled)
        .contains("\u{f127}  merge conflict"));
}

fn ui(view: Pane) -> Ui {
    Ui {
        view,
        show_help: false,
        selected: None,
        search: String::new(),
        searching: false,
    }
}

fn body(sections: &Sections, ui: &Ui) -> String {
    let mut canvas = Canvas::new(OUTPUT_WIDTH as u16, 64);
    let (used, _, required_width) = paint_dashboard(
        &mut canvas,
        sections,
        ui,
        &Changes::default(),
        "",
        None,
        true,
        noon(),
    );
    assert!(required_width <= OUTPUT_WIDTH as u16);
    canvas.resize(OUTPUT_WIDTH as u16, used.max(1));
    canvas.encode(Profile::Disabled)
}

fn queue_row(n: i64, mine: bool, building: bool) -> QueueRow {
    QueueRow {
        position: n,
        number: n,
        author: if mine { "me" } else { "other" }.into(),
        title: format!("queue-{n}"),
        url: format!("https://queue/{n}"),
        mine,
        enqueued_at: None,
        build_started_at: if building {
            Some("2026-06-19T11:00:00Z".to_string())
        } else {
            None
        },
    }
}

fn open_row(n: i64) -> PrRow {
    PrRow {
        number: n,
        is_draft: false,
        title: format!("pr {n}"),
        status: None,
        merge_state: None,
        queue: None,
        fail: 0,
        url: format!("https://pr/{n}"),
        updated_at: None,
    }
}

fn queued_open_row(n: i64) -> PrRow {
    PrRow {
        title: format!("open-queued-{n}"),
        queue: Some((n, "QUEUED".into())),
        url: format!("https://open/{n}"),
        ..open_row(n)
    }
}

fn merged_row(n: i64) -> MergedRow {
    MergedRow {
        number: n,
        title: format!("merged-{n}"),
        url: format!("https://merged/{n}"),
        release: None,
        merged_at: None,
        updated_at: None,
    }
}

fn visible_body(sections: &Sections, visible: Visibility) -> String {
    let mut canvas = Canvas::new(OUTPUT_WIDTH as u16, 64);
    let (used, _, _, required_width) = paint_body(
        &mut canvas,
        sections,
        &ui(Pane::Mine),
        &Changes::default(),
        true,
        true,
        visible,
        noon(),
        0,
    );
    assert!(required_width <= OUTPUT_WIDTH as u16);
    canvas.resize(OUTPUT_WIDTH as u16, used.max(1));
    canvas.encode(Profile::Disabled)
}

fn layout_for(width: u16, rows: u16, sections: &Sections, ui: &Ui) -> ResponsiveLayout {
    responsive_layout(width, rows, sections, ui, "", true, true, true)
}

fn mine_layout(sections: &Sections, rows: u16) -> ResponsiveLayout {
    layout_for(120, rows, sections, &ui(Pane::Mine))
}

#[test]
fn staging_buffers_inherit_the_terminal_width_policy() {
    let screen = Limits {
        width: 1,
        height: 1,
        grapheme: true,
        eaw_wide: true,
    };
    let staged = Canvas::with_limits(Limits {
        width: 10,
        height: 2,
        ..screen
    });
    assert!(staged.limits().grapheme);
    assert!(staged.limits().eaw_wide);
    assert_eq!(staged.limits().width, 10);
    // A cluster is measured as one, and without that policy as a sum.
    assert_eq!(staged.str_width("\u{1f44d}\u{1f3fd}"), 2);
    assert_eq!(Canvas::new(1, 1).str_width("\u{1f44d}\u{1f3fd}"), 4);
}

#[test]
fn disabled_profiles_force_ascii_content() {
    assert!(ascii_mode(false, Profile::Disabled));
    assert!(ascii_mode(true, Profile::TrueColor));
    assert!(!ascii_mode(false, Profile::TrueColor));
}

fn key(code: KeyCode, ctrl: bool, name: &str) -> Event {
    Event::KeyPress(KeyPress {
        code,
        ctrl,
        alt: false,
        name: name.to_string(),
        text: None,
    })
}

#[test]
fn ctrl_c_quits_while_search_is_open() {
    let ctrl_c = key(KeyCode::Char('c'), true, "ctrl+c");
    let q = key(KeyCode::Char('q'), false, "q");
    assert_eq!(classify_search(&ctrl_c), SearchAction::Quit);
    assert_eq!(classify_search(&q), SearchAction::Char('q'));
}

#[test]
fn keys_mean_what_they_are_bound_to() {
    let char_key = |c: char, name: &str| classify(&key(KeyCode::Char(c), false, name));
    assert_eq!(char_key('q', "q"), Action::Quit);
    assert_eq!(char_key('r', "r"), Action::Refresh);
    assert_eq!(char_key('R', "R"), Action::Refresh);
    assert_eq!(char_key('?', "?"), Action::ToggleHelp);
    assert_eq!(char_key('y', "y"), Action::Copy);
    assert_eq!(char_key('Y', "Y"), Action::CopySection);
    assert_eq!(char_key('/', "/"), Action::Search);
    assert_eq!(char_key('j', "j"), Action::Move(Wait::Down));
    assert_eq!(char_key('k', "k"), Action::Move(Wait::Up));
    assert_eq!(char_key('g', "g"), Action::Move(Wait::Top));
    assert_eq!(char_key('G', "G"), Action::Move(Wait::Bottom));
    assert_eq!(char_key('x', "x"), Action::Ignore);
    let named = |name: &str| classify(&key(KeyCode::Other, false, name));
    assert_eq!(named("esc"), Action::Cancel);
    assert_eq!(named("tab"), Action::SwitchView);
    assert_eq!(named("enter"), Action::Open);
    assert_eq!(named("down"), Action::Move(Wait::Down));
    assert_eq!(named("up"), Action::Move(Wait::Up));
    assert_eq!(named("ctrl+c"), Action::Quit);
    assert_eq!(named("ctrl+z"), Action::Suspend);
    assert_eq!(named("ctrl+d"), Action::Move(Wait::HalfDown));
    assert_eq!(named("ctrl+u"), Action::Move(Wait::HalfUp));
    assert_eq!(named("no such key"), Action::Ignore);
    assert_eq!(classify(&Event::Resize(3, 4)), Action::Resize(3, 4));
    assert_eq!(classify(&Event::Other), Action::Ignore);
    // The text of a key counts too.
    let shifted = Event::KeyPress(KeyPress {
        code: KeyCode::Other,
        ctrl: false,
        alt: false,
        name: "shift+7".to_string(),
        text: Some("/".to_string()),
    });
    assert_eq!(classify(&shifted), Action::Search);
}

#[test]
fn the_first_binding_of_a_key_counts() {
    let none = KeyHits {
        quit: false,
        cancel: false,
        refresh: false,
        help: false,
        switch_view: false,
        open: false,
        copy: false,
        copy_section: false,
        search: false,
        suspend: false,
        down: false,
        up: false,
        top: false,
        bottom: false,
        half_down: false,
        half_up: false,
    };
    assert_eq!(action_for(none), Action::Ignore);
    assert_eq!(
        action_for(KeyHits {
            refresh: true,
            up: true,
            ..none
        }),
        Action::Refresh
    );
}

#[test]
fn search_keys_edit_the_query() {
    assert_eq!(
        classify_search(&key(KeyCode::Space, false, "space")),
        SearchAction::Char(' ')
    );
    assert_eq!(
        classify_search(&key(KeyCode::Backspace, false, "backspace")),
        SearchAction::Backspace
    );
    assert_eq!(
        classify_search(&key(KeyCode::Enter, false, "enter")),
        SearchAction::Enter
    );
    assert_eq!(
        classify_search(&key(KeyCode::Escape, false, "esc")),
        SearchAction::Esc
    );
    assert_eq!(
        classify_search(&key(KeyCode::Char('z'), true, "ctrl+z")),
        SearchAction::Suspend
    );
    assert_eq!(
        classify_search(&key(KeyCode::Char('d'), true, "ctrl+d")),
        SearchAction::Ignore
    );
    assert_eq!(
        classify_search(&Event::Resize(1, 2)),
        SearchAction::Resize(1, 2)
    );
}

#[test]
fn empty_sections_still_show_their_headers_then_a_placeholder() {
    let sections = Sections {
        prs: Some(vec![]),
        queue: Some(vec![]),
        merged: Some(vec![]),
        ..Sections::empty()
    };
    let body = body(&sections, &ui(Pane::Mine));
    assert!(body.contains("My open PRs (0)"));
    assert!(body.contains("Merge Queue (0)"));
    assert!(body.contains("My merged PRs (0)"));
    let after = |title: &str, msg: &str| {
        let h = body.find(title).expect("header present");
        let p = body.find(msg).expect("placeholder present");
        assert!(p > h, "placeholder for {title} should follow its header");
    };
    after("My open PRs (0)", "No open PRs.");
    after("Merge Queue (0)", "No merge queue.");
    after("My merged PRs (0)", "No recent merged PRs.");
    for msg in ["No open PRs.", "No merge queue.", "No recent merged PRs."] {
        let line = body
            .lines()
            .find(|l| l.contains(msg))
            .expect("placeholder line");
        assert_eq!(
            line,
            format!("{}{msg}", " ".repeat(ROW_INDENT as usize))
        );
    }
}

#[test]
fn queue_header_shows_next_eta() {
    let sections = Sections {
        queue: Some(vec![]),
        queue_next_eta: Some(11 * 60),
        ..Sections::empty()
    };
    let body = body(&sections, &ui(Pane::Mine));
    assert!(body.contains("Merge Queue (0)"));
    assert!(body.contains("~11m to merge"));
}

#[test]
fn reviews_view_renders_its_own_sections() {
    let sections = Sections {
        reviews: Some(vec![]),
        reviewed_merged: Some(vec![]),
        ..Sections::empty()
    };
    let body = body(&sections, &ui(Pane::Reviews));
    assert!(body.contains("Reviews (0)"));
    assert!(body.contains("Reviewed & merged (0)"));
    assert!(!body.contains("My open PRs"));
}

fn four_empty() -> Sections {
    Sections {
        prs: Some(vec![]),
        queue: Some(vec![]),
        merged: Some(vec![]),
        commits: Some(CommitStats::unavailable()),
        ..Sections::empty()
    }
}

#[test]
fn responsive_height_hides_help_before_sections() {
    let sections = four_empty();
    let ui = Ui {
        show_help: true,
        ..ui(Pane::Mine)
    };
    let layout = layout_for(120, 14, &sections, &ui);
    assert!(!layout.show_help);
    assert_eq!(layout.visible, Visibility::all(&sections));
    assert!(layout.constrained);
    assert!(!layout.too_small);
}

#[test]
fn responsive_height_hides_low_priority_sections_in_order() {
    let sections = four_empty();
    let layout = layout_for(120, 9, &sections, &ui(Pane::Mine));
    assert_eq!(
        layout.visible,
        Visibility {
            prs: true,
            queue: Some(VisibleRows::All),
            merged: None,
            shipments: false,
            reviews: false,
            reviewed_merged: false,
        }
    );
    assert!(layout.constrained);
    assert!(!layout.too_small);

    let layout = layout_for(120, 6, &sections, &ui(Pane::Mine));
    assert_eq!(
        layout.visible,
        Visibility {
            prs: true,
            queue: None,
            merged: None,
            shipments: false,
            reviews: false,
            reviewed_merged: false,
        }
    );
    assert!(layout.constrained);
    assert!(!layout.too_small);
}

#[test]
fn responsive_height_trims_merged_rows_to_one_before_hiding_them() {
    let sections = Sections {
        prs: Some(vec![]),
        merged: Some((1..=5).map(merged_row).collect()),
        ..Sections::empty()
    };

    let three = mine_layout(&sections, 13);
    assert_eq!(three.visible.merged, Some(3));

    let one = mine_layout(&sections, 11);
    assert_eq!(one.visible.merged, Some(1));
    let body = visible_body(&sections, one.visible);
    assert!(body.contains("merged-1"), "newest merged PR should remain");
    assert!(
        !body.contains("merged-2"),
        "older merged PR should be hidden"
    );
    assert!(body.contains("+4 hidden"), "hidden count should be shown");

    let none = mine_layout(&sections, 10);
    assert_eq!(none.visible.merged, None);
}

#[test]
fn responsive_height_prioritizes_building_and_mine_queue_rows() {
    let sections = Sections {
        prs: Some(vec![]),
        queue: Some(vec![
            queue_row(1, false, true),
            queue_row(2, true, false),
            queue_row(3, true, true),
            queue_row(4, false, false),
            queue_row(5, false, false),
        ]),
        ..Sections::empty()
    };

    let mine_and_building = mine_layout(&sections, 13);
    assert_eq!(
        mine_and_building.visible.queue,
        Some(VisibleRows::BuildingAndMine)
    );
    let body = visible_body(&sections, mine_and_building.visible);
    for title in ["queue-1", "queue-2", "queue-3"] {
        assert!(body.contains(title), "{title} should be visible");
    }
    for title in ["queue-4", "queue-5"] {
        assert!(!body.contains(title), "{title} should be hidden");
    }
    assert!(body.contains("+2 hidden"), "hidden count should be shown");

    let building = mine_layout(&sections, 12);
    assert_eq!(building.visible.queue, Some(VisibleRows::Building));
    let body = visible_body(&sections, building.visible);
    for title in ["queue-1", "queue-3"] {
        assert!(body.contains(title), "{title} should be visible");
    }
    assert!(
        !body.contains("queue-2"),
        "non-building own PR should be hidden"
    );
    assert!(body.contains("+3 hidden"), "hidden count should be shown");

    let none = mine_layout(&sections, 11);
    assert_eq!(none.visible.queue, None);
}

#[test]
fn responsive_height_keeps_marker_only_queue_before_hiding_it() {
    let sections = Sections {
        prs: Some((1..=4).map(queued_open_row).collect()),
        queue: Some((1..=4).map(|n| queue_row(n, true, false)).collect()),
        ..Sections::empty()
    };
    let layout = mine_layout(&sections, 9);

    assert_eq!(layout.visible.queue, Some(VisibleRows::Building));
    assert!(!layout.too_small);
    let body = visible_body(&sections, layout.visible);
    assert!(body.contains("Merge Queue (4)"));
    assert!(body.contains("+4 hidden"));
    assert!(!body.contains("No merge queue."));
    assert!(!body.contains("open-queued-"));
    assert!(
        targets_visible(Pane::Mine, &sections, "", layout.visible).is_empty(),
        "the hidden-count row must not be navigable or copyable"
    );
}

#[test]
fn responsive_height_protects_open_prs_or_reports_too_small() {
    let layout = layout_for(120, 5, &four_empty(), &ui(Pane::Mine));
    assert!(layout.too_small);
    assert_eq!(layout.visible, Visibility::none());
    assert_eq!(layout.required_height, 6);
}

#[test]
fn hiding_queue_restores_queued_pr_to_protected_open_section() {
    let sections = Sections {
        prs: Some(vec![PrRow {
            title: "queued".into(),
            queue: Some((1, "QUEUED".into())),
            url: "https://pr/1".into(),
            ..open_row(1)
        }]),
        queue: Some(vec![]),
        ..Sections::empty()
    };
    let layout = layout_for(120, 7, &sections, &ui(Pane::Mine));
    assert!(layout.visible.prs);
    assert!(layout.visible.queue.is_none());
    assert!(!layout.too_small);
    assert_eq!(body_height(&sections, Pane::Mine, layout.visible, true), 6);
}

#[test]
fn responsive_reviews_protect_the_open_section() {
    let sections = Sections {
        reviews: Some(vec![]),
        reviewed_merged: Some(vec![]),
        ..Sections::empty()
    };
    let layout = layout_for(120, 6, &sections, &ui(Pane::Reviews));
    assert!(layout.visible.reviews);
    assert!(!layout.visible.reviewed_merged);
    assert!(!layout.too_small);
}

#[test]
fn responsive_width_reports_too_small_below_minimum() {
    let layout = layout_for(MIN_WIDTH - 1, 40, &Sections::empty(), &ui(Pane::Mine));
    assert!(layout.too_small);
    assert_eq!(layout.required_height, 3);
    assert_eq!(
        too_small_message(MIN_WIDTH, layout.required_height),
        "Terminal too small — need 24×3."
    );
}

#[test]
fn heights_add_up() {
    assert_eq!(section_height(Some(4), true), 7);
    assert_eq!(section_height(Some(4), false), 0);
    assert_eq!(section_height(None, true), 0);
    assert_eq!(limited_section_height(4, Some(0)), 3);
    assert_eq!(limited_section_height(4, Some(2)), 6);
    assert_eq!(limited_section_height(4, Some(4)), 7);
    assert_eq!(limited_section_height(4, None), 0);
    let searching = Ui {
        searching: true,
        ..ui(Pane::Mine)
    };
    assert_eq!(bottom_height(&ui(Pane::Mine), "", false, false), 0);
    assert_eq!(bottom_height(&searching, "error", true, true), 21);
    assert_eq!(height_bound(&Sections::empty(), &ui(Pane::Mine)), 10);
    // Without a screen of a known size everything is shown.
    let sections = four_empty();
    let layout = responsive_layout(1, 1, &sections, &ui(Pane::Mine), "", true, true, false);
    assert_eq!(layout.visible, Visibility::all(&sections));
    assert!(!layout.too_small);
}

#[test]
fn selection_highlights_the_chosen_row() {
    let sections = Sections {
        prs: Some(vec![open_row(1), open_row(2)]),
        ..Sections::empty()
    };
    let highlighted = |ui: &Ui| -> Vec<String> {
        let w = OUTPUT_WIDTH as u16;
        let mut canvas = Canvas::new(w, 64);
        let (_, _, required_width) = paint_dashboard(
            &mut canvas,
            &sections,
            ui,
            &Changes::default(),
            "",
            None,
            true,
            noon(),
        );
        assert!(required_width <= w);
        let text: Vec<String> = canvas
            .encode(Profile::Disabled)
            .lines()
            .map(str::to_string)
            .collect();
        let bar = Some(Color::Rgb(SURFACE.0, SURFACE.1, SURFACE.2));
        (0..64u16)
            .filter(|&y| {
                (0..w).all(|x| {
                    canvas
                        .buffer
                        .cell(Position::new(x, y))
                        .is_some_and(|c| c.style.bg == bar)
                })
            })
            .map(|y| text.get(y as usize).cloned().unwrap_or_default())
            .collect()
    };
    assert!(highlighted(&ui(Pane::Mine)).is_empty());
    let sel = highlighted(&Ui {
        selected: Some(1),
        ..ui(Pane::Mine)
    });
    assert_eq!(sel.len(), 1, "expected one highlighted row, got {sel:?}");
    assert!(sel[0].contains("#2"), "wrong row highlighted: {:?}", sel[0]);
}

fn bucket(url: &str) -> Bucket {
    Bucket {
        count: Count {
            mine: 1,
            capped: false,
        },
        url: url.into(),
    }
}

fn shipped() -> CommitStats {
    CommitStats {
        available: true,
        upcoming: Some(bucket("https://up")),
        releases: vec![Release {
            tag: "v1".into(),
            bucket: bucket("https://rel/v1"),
            published_at: None,
        }],
    }
}

fn full() -> Sections {
    Sections {
        prs: Some(vec![open_row(1), open_row(2)]),
        queue: Some(vec![queue_row(3, true, false)]),
        merged: Some(vec![merged_row(4)]),
        commits: Some(shipped()),
        ..Sections::empty()
    }
}

#[test]
fn mine_targets_follow_render_order() {
    let s = Sections {
        prs: Some(vec![open_row(1), open_row(2)]),
        queue: Some(vec![QueueRow {
            title: "q 3".into(),
            url: "https://q/3".into(),
            ..queue_row(3, true, false)
        }]),
        merged: Some(vec![MergedRow {
            title: "m 4".into(),
            url: "https://m/4".into(),
            ..merged_row(4)
        }]),
        commits: Some(shipped()),
        ..Sections::empty()
    };
    assert_eq!(
        targets(Pane::Mine, &s),
        vec![
            "https://pr/1",
            "https://pr/2",
            "https://q/3",
            "https://m/4",
            "https://up",
            "https://rel/v1",
        ]
    );
}

#[test]
fn unavailable_or_urlless_shipments_are_skipped() {
    let s = Sections {
        prs: Some(vec![open_row(1)]),
        commits: Some(CommitStats {
            available: false,
            upcoming: None,
            releases: vec![],
        }),
        ..Sections::empty()
    };
    assert_eq!(targets(Pane::Mine, &s), vec!["https://pr/1"]);
}

fn review_row(n: i64, author: &str) -> ReviewRow {
    ReviewRow {
        number: n,
        is_draft: false,
        title: "r".into(),
        author: author.into(),
        url: format!("https://rev/{n}"),
        state: ReviewState::Awaiting,
        updated_at: None,
    }
}

fn reviewed() -> Sections {
    Sections {
        reviews: Some(vec![review_row(1, "a")]),
        reviewed_merged: Some(vec![ReviewedMergedRow {
            number: 2,
            title: "rm".into(),
            author: "a".into(),
            url: "https://revm/2".into(),
            merged_at: None,
        }]),
        ..Sections::empty()
    }
}

#[test]
fn reviews_targets_follow_render_order() {
    assert_eq!(
        targets(Pane::Reviews, &reviewed()),
        vec!["https://rev/1", "https://revm/2"]
    );
}

#[test]
fn movement_enters_and_clamps() {
    assert_eq!(moved(Wait::Down, None, 5, 2), Some(0));
    assert_eq!(moved(Wait::Up, None, 5, 2), Some(0));
    assert_eq!(moved(Wait::Bottom, None, 5, 2), Some(4));
    assert_eq!(moved(Wait::Down, Some(4), 5, 2), Some(4));
    assert_eq!(moved(Wait::Up, Some(0), 5, 2), Some(0));
    assert_eq!(moved(Wait::HalfDown, Some(0), 5, 2), Some(2));
    assert_eq!(moved(Wait::HalfUp, Some(4), 5, 2), Some(2));
    assert_eq!(moved(Wait::Top, Some(3), 5, 2), Some(0));
    assert_eq!(moved(Wait::Down, Some(0), 0, 2), None);
    assert_eq!(moved(Wait::Open, Some(1), 5, 2), Some(1));
}

#[test]
fn clamp_pins_or_drops() {
    assert_eq!(clamp(Some(9), 5), Some(4));
    assert_eq!(clamp(Some(2), 5), Some(2));
    assert_eq!(clamp(Some(0), 0), None);
    assert_eq!(clamp(None, 5), None);
}

#[test]
fn sections_are_found_by_position_and_page() {
    let s = full();
    let v = Visibility::all(&s);
    assert_eq!(
        section_at_visible(Pane::Mine, &s, "", 1, v),
        vec!["https://pr/1", "https://pr/2"]
    );
    assert_eq!(
        section_at_visible(Pane::Mine, &s, "", 4, v),
        vec!["https://up", "https://rel/v1"]
    );
    assert!(section_at_visible(Pane::Mine, &s, "", 6, v).is_empty());
    assert_eq!(
        target_index(Pane::Mine, &s, "", v, "https://merged/4"),
        Some(3)
    );
    assert_eq!(target_index(Pane::Mine, &s, "", v, "https://x"), None);
    // A search does not look at the shipments.
    assert_eq!(target_index(Pane::Mine, &s, "q", v, "https://up"), None);
}

#[test]
fn a_search_finds_titles_numbers_and_authors() {
    let found = filter(&full(), "QUEUE-3");
    assert!(found.prs.unwrap().is_empty());
    assert_eq!(found.queue.unwrap().len(), 1);
    assert!(found.commits.is_some());
    assert!(found.reviews.is_none());
    assert_eq!(filter(&full(), "#2").prs.unwrap()[0].number, 2);
    assert_eq!(filter(&full(), "ME").queue.unwrap().len(), 1);
    assert_eq!(filter(&full(), "").prs.unwrap().len(), 2);
    assert_eq!(filter(&reviewed(), "rm").reviewed_merged.unwrap().len(), 1);
}

#[test]
fn a_selection_falls_on_one_section() {
    assert_eq!(mine_selection(None, 2, 1, 1), (None, None, None, None));
    assert_eq!(mine_selection(Some(1), 2, 1, 1), (Some(1), None, None, None));
    assert_eq!(mine_selection(Some(2), 2, 1, 1), (None, Some(0), None, None));
    assert_eq!(mine_selection(Some(3), 2, 1, 1), (None, None, Some(0), None));
    assert_eq!(mine_selection(Some(9), 2, 1, 1), (None, None, None, Some(5)));
}

#[test]
fn shipments_line_up() {
    let stats = CommitStats {
        available: true,
        upcoming: Some(Bucket {
            count: Count {
                mine: 12,
                capped: true,
            },
            url: "https://up".into(),
        }),
        releases: vec![Release {
            tag: "v1".into(),
            bucket: bucket("https://rel/v1"),
            published_at: Some("2026-06-16T12:00:00Z".into()),
        }],
    };
    let sections = Sections {
        commits: Some(stats),
        ..Sections::empty()
    };
    let out = body(&sections, &ui(Pane::Mine));
    let lines: Vec<&str> = out.split("\r\n").collect();
    assert_eq!(lines[0], "My Shipments (13+)");
    assert_eq!(lines[1], "  upcoming: 12+");
    assert_eq!(lines[2], "        v1: 1     3d");
    let sections = Sections {
        commits: Some(CommitStats::unavailable()),
        ..Sections::empty()
    };
    assert!(body(&sections, &ui(Pane::Mine)).starts_with("  Commit stats unavailable."));
}

#[test]
fn one_shot_output_is_as_high_as_its_content() {
    let s = four_empty();
    let out = render_to_string_at(
        &s,
        &ui(Pane::Mine),
        &Changes::default(),
        None,
        true,
        Profile::Disabled,
        noon(),
    );
    assert_eq!(out.split("\r\n").count(), 11);
    let again = render_to_string(
        &s,
        &ui(Pane::Mine),
        &Changes::default(),
        Some(("5m", false)),
        true,
        Profile::Disabled,
    );
    assert!(again.starts_with("[Mine]  Reviews"));
    assert!(again.ends_with("r refresh (next in 5m) - ? help"));
}

fn screen(width: u16, height: u16) -> Limits {
    Limits {
        width,
        height,
        grapheme: false,
        eaw_wide: false,
    }
}

fn draw(width: u16, height: u16, ui: &Ui, pinned: bool) -> Drawn {
    render_dashboard(
        screen(width, height),
        &full(),
        ui,
        &Changes::default(),
        "",
        Some(("5m", false)),
        true,
        pinned,
        noon(),
    )
}

#[test]
fn frames_are_pinned_inline_or_a_notice() {
    if let Drawn::Pinned {
        body,
        body_height,
        bottom_height,
        place,
        ..
    } = draw(100, 40, &ui(Pane::Mine), true)
    {
        assert_eq!(bottom_height, 1);
        assert_eq!((place.scroll, place.top, place.cut), (0, 39, 0));
        assert_eq!(body_height, 19);
        assert!(body.encode(Profile::Disabled).contains("pr 2"));
    } else {
        panic!("expected a pinned frame");
    }
    if let Drawn::Notice { message, width } = draw(100, 3, &ui(Pane::Mine), true) {
        assert_eq!(message, "Terminal too small \u{2014} need 24\u{d7}8.");
        assert_eq!(width, None);
    } else {
        panic!("expected a notice");
    }
    if let Drawn::Notice { message, width } = draw(10, 3, &ui(Pane::Mine), false) {
        assert_eq!(message, "Terminal too small \u{2014} need 24\u{d7}20.");
        assert_eq!(width, Some(10));
    } else {
        panic!("expected a notice");
    }
    if let Drawn::Inline { canvas, cursor } = draw(100, 3, &ui(Pane::Mine), false) {
        assert_eq!(canvas.limits().height, 20);
        assert_eq!(cursor, None);
    } else {
        panic!("expected an inline frame");
    }
}

#[test]
fn the_cursor_rests_in_the_open_prompt() {
    let searching = Ui {
        search: "pr".into(),
        searching: true,
        ..ui(Pane::Mine)
    };
    if let Drawn::Pinned {
        bottom,
        cursor,
        place,
        ..
    } = draw(100, 40, &searching, true)
    {
        assert_eq!(place.top, 37);
        assert_eq!(cursor, Some((3, 37)));
        assert!(bottom.encode(Profile::Disabled).starts_with("/pr  4 matches"));
    } else {
        panic!("expected a pinned frame");
    }
}

#[test]
fn a_narrow_screen_asks_for_the_width_of_the_columns() {
    if let Drawn::Notice { message, .. } = draw(30, 40, &ui(Pane::Mine), true) {
        assert!(message.starts_with("Terminal too small \u{2014} need 31\u{d7}20."), "{message}");
    } else {
        panic!("expected a notice");
    }
}

#[test]
fn the_bottom_keeps_its_end_and_the_selection_its_row() {
    let p = compose(30, 5, 20, Some(17));
    assert_eq!((p.scroll, p.shown, p.top, p.cut), (3, 15, 15, 0));
    let p = compose(17, 5, 20, Some(16));
    assert_eq!((p.scroll, p.shown), (2, 15));
    let p = compose(10, 5, 20, Some(9));
    assert_eq!((p.scroll, p.shown), (0, 10));
    let p = compose(10, 25, 20, Some(3));
    assert_eq!((p.scroll, p.shown, p.top, p.cut), (0, 0, 0, 5));
}

const SIZE: Size = Size {
    width: 120,
    height: 40,
};

fn watching() -> Watch {
    let mut w = Watch::new(ui(Pane::Mine));
    w.start_from(full());
    w
}

#[test]
fn keys_move_open_and_copy() {
    let mut w = watching();
    assert!(w.in_alt);
    assert_eq!(w.target_count(SIZE), 6);
    assert_eq!(
        w.act(Action::Open, SIZE, None),
        (Flow::Continue, Effect::Nothing)
    );
    assert_eq!(
        w.act(Action::Move(Wait::Down), SIZE, None),
        (Flow::Continue, Effect::Repaint)
    );
    assert_eq!(
        w.act(Action::Open, SIZE, None),
        (Flow::Continue, Effect::Open("https://pr/1".to_string()))
    );
    assert_eq!(
        w.act(Action::CopySection, SIZE, None),
        (
            Flow::Continue,
            Effect::Copy("- https://pr/1\n- https://pr/2".to_string(), 2)
        )
    );
    assert_eq!(
        w.act(Action::Move(Wait::HalfDown), SIZE, Some(40)).1,
        Effect::Repaint
    );
    assert_eq!(w.ui.selected, Some(5));
    assert_eq!(
        w.act(Action::Move(Wait::Bottom), SIZE, None).1,
        Effect::Nothing
    );
    assert_eq!(
        w.act(Action::Copy, SIZE, None).1,
        Effect::Copy("https://rel/v1".to_string(), 1)
    );
    w.copied(1, None);
    assert_eq!(w.last_status, "copied 1 link");
    assert_eq!(w.ui.selected, None);
    w.copied(2, None);
    assert_eq!(w.last_status, "copied 2 links");
    w.copied(2, Some("gone"));
    assert_eq!(w.last_status, "error: copy failed: gone");
    w.open_failed("gone");
    assert_eq!(w.last_status, "error: open failed: gone");
}

#[test]
fn keys_switch_toggle_and_quit() {
    let mut w = watching();
    w.ui.selected = Some(1);
    assert_eq!(w.act(Action::ToggleHelp, SIZE, None).1, Effect::Repaint);
    assert!(w.ui.show_help);
    assert_eq!(w.ui.selected, None);
    w.act(Action::SwitchView, SIZE, None);
    assert_eq!(w.ui.view, Pane::Reviews);
    assert_eq!(w.act(Action::Refresh, SIZE, None).0, Flow::Refresh);
    assert_eq!(w.act(Action::Suspend, SIZE, None).1, Effect::Suspend);
    assert_eq!(
        w.act(Action::Ignore, SIZE, None),
        (Flow::Continue, Effect::Nothing)
    );
    assert_eq!(w.act(Action::Quit, SIZE, None).0, Flow::Quit);
    assert_eq!(w.act(Action::Cancel, SIZE, None).0, Flow::Quit);
    w.ui.search = "x".into();
    assert_eq!(
        w.act(Action::Cancel, SIZE, None),
        (Flow::Continue, Effect::Repaint)
    );
    assert_eq!(w.ui.search, "");
}

#[test]
fn typing_filters_and_esc_clears() {
    let mut w = watching();
    let press = |w: &mut Watch, code: KeyCode, name: &str| {
        w.handle_event(&key(code, false, name), SIZE, None)
    };
    assert_eq!(press(&mut w, KeyCode::Char('/'), "/").1, Effect::Repaint);
    assert!(w.ui.searching);
    press(&mut w, KeyCode::Char('q'), "q");
    press(&mut w, KeyCode::Char('x'), "x");
    press(&mut w, KeyCode::Backspace, "backspace");
    assert_eq!(w.ui.search, "q");
    assert_eq!(w.target_list(SIZE), vec!["https://queue/3"]);
    press(&mut w, KeyCode::Enter, "enter");
    assert!(!w.ui.searching);
    assert_eq!(w.ui.search, "q");
    press(&mut w, KeyCode::Char('/'), "/");
    press(&mut w, KeyCode::Escape, "esc");
    assert_eq!((w.ui.search.as_str(), w.ui.searching), ("", false));
    press(&mut w, KeyCode::Char('/'), "/");
    assert_eq!(
        w.handle_event(&Event::Resize(9, 9), SIZE, None).1,
        Effect::Resize(9, 9)
    );
    assert_eq!(
        w.handle_event(&key(KeyCode::Char('c'), true, "ctrl+c"), SIZE, None)
            .0,
        Flow::Quit
    );
}

#[test]
fn a_resize_keeps_the_page_selected() {
    let mut w = watching();
    w.ui.selected = Some(3);
    assert_eq!(
        w.selected_url(SIZE).as_deref(),
        Some("https://merged/4")
    );
    // Without room for the rest, the merged section is gone, and its row with it.
    assert_eq!(
        w.act(Action::Resize(120, 12), SIZE, None).1,
        Effect::Resize(120, 12)
    );
    assert_eq!(w.ui.selected, None);
    w.ui.selected = Some(1);
    w.act(Action::Resize(100, 39), SIZE, None);
    assert_eq!(w.ui.selected, Some(1));
    w.in_alt = false;
    assert_eq!(
        w.act(Action::Resize(100, 7), SIZE, None).1,
        Effect::Resize(100, 40)
    );
}

#[test]
fn a_refresh_tells_what_changed_and_rings_once_armed() {
    let mut w = watching();
    w.ui.selected = Some(1);
    let mut next = full();
    if let Some(rows) = &mut next.prs {
        rows.insert(0, open_row(9));
        rows[1].status = Some(status::Status::Fail);
    }
    let (changes, ring) = w.apply(next, SIZE, false);
    assert!(changes.status_changed.contains(&1));
    assert!(!changes.status_changed.contains(&9));
    assert!(!ring, "the first refresh is silent");
    // The same page is selected, one row down.
    assert_eq!(w.ui.selected, Some(2));
    let (changes, ring) = w.apply(full(), SIZE, false);
    assert!(changes.any() && ring);
    let (changes, ring) = w.apply(full(), SIZE, false);
    assert!(!changes.any() && !ring);
    let mut merged = full();
    if let Some(rows) = &mut merged.merged {
        rows.push(merged_row(5));
    }
    let (changes, ring) = w.apply(merged, SIZE, true);
    assert!(changes.newly_merged.contains(&5));
    assert!(!ring, "the bell is off");
}

#[test]
fn a_watch_is_drawn_with_its_filter() {
    let mut w = watching();
    w.ui.search = "queue".into();
    let frame = w.redraw(screen(120, 40), &Changes::default(), "5m", true, true, noon());
    if let Drawn::Pinned { body, bottom, .. } = frame {
        let text = body.encode(Profile::Disabled);
        assert!(text.contains("queue-3") && !text.contains("pr 1"));
        let text = bottom.encode(Profile::Disabled);
        assert!(text.contains("/queue  1 match"));
        assert!(text.contains("r refreshing - ? help"));
    } else {
        panic!("expected a pinned frame");
    }
    let empty = Watch::new(ui(Pane::Mine));
    let frame = empty.redraw(screen(120, 40), &Changes::default(), "5m", false, true, noon());
    if let Drawn::Inline { canvas, .. } = frame {
        assert_eq!(
            canvas.encode(Profile::Disabled),
            "[Mine]  Reviews\r\n\r\nr refresh (next in 5m) - ? help"
        );
    } else {
        panic!("expected an inline frame");
    }
}

#[test]
fn an_error_keeps_the_rows_and_drops_the_selection() {
    let mut w = watching();
    w.ui.selected = Some(1);
    w.show_error("boom\nand more");
    assert_eq!(w.last_status, "error: boom");
    assert_eq!(w.ui.selected, None);
    assert!(w.last_good.is_some());
    let mut w = Watch::new(ui(Pane::Mine));
    w.show_error("x");
    assert_eq!(w.target_count(SIZE), 0);
    assert_eq!(w.act(Action::CopySection, SIZE, None).1, Effect::Nothing);
}

#[test]
fn errors_are_cut_to_a_line() {
    assert_eq!(short_error("a\nb"), "a");
    let long = "x".repeat(121);
    assert_eq!(
        short_error(&long),
        format!("{}\u{2026}", "x".repeat(119))
    );
    assert_eq!(short_error(&"x".repeat(120)).len(), 120);
}

#[test]
fn half_a_page_and_lists() {
    assert_eq!(half_page(Some(40)), 20);
    assert_eq!(half_page(Some(1)), 1);
    assert_eq!(half_page(None), 10);
    assert_eq!(markdown_list(&vec![]), "");
    assert_eq!(
        markdown_list(&vec!["a".to_string(), "b".to_string()]),
        "- a\n- b"
    );
}

#[test]
fn a_fetch_is_waited_for() {
    assert_eq!(
        fetch_next(true, FetchState::Arrived, true),
        FetchNext::Quit
    );
    assert_eq!(
        fetch_next(false, FetchState::Arrived, true),
        FetchNext::Show
    );
    assert_eq!(
        fetch_next(false, FetchState::Failed, false),
        FetchNext::Report
    );
    assert_eq!(
        fetch_next(false, FetchState::Pending, false),
        FetchNext::Poll
    );
    assert_eq!(fetch_next(false, FetchState::Lost, true), FetchNext::GoOn);
    assert_eq!(
        fetch_next(false, FetchState::Lost, false),
        FetchNext::ReportLost
    );
}

fn cli() -> Cli {
    Cli {
        repo: None,
        view: Pane::Mine,
        interval: Dur::parse("5m").unwrap(),
        once: false,
        no_bell: false,
        ascii: true,
        only: None,
        merged_window: Dur::parse("2d").unwrap(),
        merged_limit: 20,
        no_reference: true,
        login: false,
        no_cache: false,
        no_draft: false,
        include_pre_releases: false,
        review_scope: ReviewScope::All,
    }
}

#[test]
fn only_what_is_shown_is_fetched() {
    let mut c = cli();
    let p = plan(&c, true, false);
    assert!(p.releases && p.merged && p.queue && p.prs && p.shipments && !p.reviews);
    c.only = Some(vec![Section::Merged]);
    let p = plan(&c, true, true);
    assert!(p.releases && p.merged && !p.queue && !p.prs && !p.shipments && p.reviews);
    c.only = Some(vec![Section::Queue]);
    let p = plan(&c, true, false);
    assert!(!p.releases && p.queue);
    let p = plan(&c, false, true);
    assert!(!p.queue && p.reviews);
}

#[test]
fn sections_come_of_the_answers() {
    let c = cli();
    let p = plan(&c, true, false);
    let s = fetch(
        &c,
        p,
        "me",
        Answers {
            releases: None,
            merged: Some(vec![]),
            queue: Some(vec![]),
            queue_next_eta: Some(60),
            prs: Some(vec![]),
            reviews: None,
            reviewed_merged: None,
        },
    );
    assert!(!s.commits.unwrap().available);
    assert_eq!(s.queue_next_eta, Some(60));
    assert!(s.prs.unwrap().is_empty());
    assert!(s.reviews.is_none());
}

#[test]
fn one_shot_state_follows_the_options() {
    let mut c = cli();
    c.no_reference = false;
    let u = Ui::once(&c);
    assert!(u.show_help && !u.searching && u.selected.is_none());
    assert!(!Ui::watching(&c).show_help);
}

#[test]
fn a_plain_frame_holds_the_sections_in_order() {
    let repo = Repo {
        owner: "o".into(),
        name: "n".into(),
    };
    let s = Sections {
        merged: Some(vec![]),
        queue: Some(vec![]),
        prs: Some(vec![open_row(1)]),
        ..Sections::empty()
    };
    let out = render_frame(&s, &cli(), &repo, "me", "12:00:00", false, "", now());
    let lines: Vec<&str> = out.lines().collect();
    assert_eq!(lines[0], "No PRs merged by me in o/n in the last 2d.");
    assert_eq!(lines[2], "No merge queue (or it is empty) for o/n.");
    assert_eq!(lines[4], "My PRs (1)");
    assert!(lines[6].contains("#1"));
    assert_eq!(lines[7], "");
    assert_eq!(lines[8], "12:00:00");
    assert!(out.ends_with("12:00:00\n"));
    let s = Sections {
        prs: Some(vec![]),
        ..Sections::empty()
    };
    let out = render_frame(&s, &cli(), &repo, "me", "", true, "<clear>", now());
    assert!(out.starts_with("<clear>"));
    assert!(out.contains("No open PRs by me in o/n."));
}
