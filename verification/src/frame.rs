//! The plain frame: the sections one after the other as text, with a status line
//! at the end.

use crate::canvas::{Canvas, Limits, Picture, Profile};
use crate::cli::Cli;
use crate::github::Repo;
use crate::merged;
use crate::prs;
use crate::queue;
use crate::render::{
    paint_dim, paint_header, render_table, table_text, with_dim, with_section_header, MAX_WIDTH,
};
use crate::sections::{Sections, SectionsView};
use crate::status::{Rgb, BLUE, LAVENDER, MAUVE};
use crate::text::{dec, decimal};
use crate::timefmt::Timestamp;
use std::collections::HashSet;
use vstd::prelude::*;

verus! {

/// The profile for styled or plain output.
pub open spec fn profile_for(styled: bool) -> Profile {
    if styled {
        Profile::TrueColor
    } else {
        Profile::Disabled
    }
}

/// One empty row.
pub open spec fn one_row() -> Picture {
    Picture::empty(Limits { width: 120, height: 1, grapheme: false, eaw_wide: false })
}

fn written(s: &Canvas, styled: bool) -> (r: String)
    ensures
        r@ == s@.encoded(profile_for(styled)),
{
    if styled {
        s.encode(Profile::TrueColor)
    } else {
        s.encode(Profile::Disabled)
    }
}

/// A section header as text.
pub open spec fn header_text(title: Seq<char>, accent: Rgb, count: nat, styled: bool) -> Seq<char> {
    with_section_header(
        one_row(),
        title,
        accent,
        Some(dec(count)),
        None,
        !styled,
        0,
    ).encoded(profile_for(styled))
}

/// A section header as text.
pub fn header(title: &str, accent: Rgb, count: usize, styled: bool) -> (r: String)
    ensures
        r@ == header_text(title@, accent, count as nat, styled),
{
    let mut s = Canvas::new(MAX_WIDTH as u16, 1);
    let n = decimal(count as u128);
    paint_header(&mut s, title, accent, Some(n.as_str()), None, !styled, 0);
    written(&s, styled)
}

/// A faint line as text.
pub open spec fn faint_text(msg: Seq<char>, styled: bool) -> Seq<char> {
    with_dim(one_row(), msg, 0, 0).encoded(profile_for(styled))
}

/// A faint line as text.
pub fn empty_line(msg: &str, styled: bool) -> (r: String)
    ensures
        r@ == faint_text(msg@, styled),
{
    let mut s = Canvas::new(MAX_WIDTH as u16, 1);
    paint_dim(&mut s, msg, 0);
    written(&s, styled)
}

/// The line for a frame without merged pull requests.
pub open spec fn no_merged(slug: Seq<char>, me: Seq<char>, window: Seq<char>) -> Seq<char> {
    "No PRs merged by "@ + me + " in "@ + slug + " in the last "@ + window + "."@
}

/// The line for a frame without a queue.
pub open spec fn no_queue(slug: Seq<char>) -> Seq<char> {
    "No merge queue (or it is empty) for "@ + slug + "."@
}

/// The line for a frame without open pull requests.
pub open spec fn no_prs(slug: Seq<char>, me: Seq<char>) -> Seq<char> {
    "No open PRs by "@ + me + " in "@ + slug + "."@
}

/// A section with rows: its header, its table, and a blank line.
pub open spec fn full_section(header: Seq<char>, table: Seq<char>) -> Seq<char> {
    header + "\n"@ + table + "\n"@ + "\n"@
}

/// A section without rows: a line, and a blank one.
pub open spec fn bare_section(line: Seq<char>) -> Seq<char> {
    line + "\n"@ + "\n"@
}

/// The merged pull requests of a frame.
pub open spec fn merged_part(
    rows: Seq<merged::MergedRowView>,
    slug: Seq<char>,
    me: Seq<char>,
    window: Seq<char>,
    ascii: bool,
    styled: bool,
    now: Timestamp,
) -> Seq<char> {
    if rows.len() == 0 {
        bare_section(faint_text(no_merged(slug, me, window), styled))
    } else {
        full_section(
            header_text("Recently Merged"@, MAUVE, rows.len(), styled),
            table_text(merged::table_of(rows, ascii, Set::empty(), now), styled),
        )
    }
}

/// The queue of a frame.
pub open spec fn queue_part(
    rows: Seq<queue::QueueRowView>,
    slug: Seq<char>,
    ascii: bool,
    styled: bool,
    now: Timestamp,
) -> Seq<char> {
    if rows.len() == 0 {
        bare_section(faint_text(no_queue(slug), styled))
    } else {
        full_section(
            header_text("Merge Queue"@, BLUE, rows.len(), styled),
            table_text(queue::table_of(rows, ascii, now), styled),
        )
    }
}

/// The open pull requests of a frame.
pub open spec fn prs_part(
    rows: Seq<prs::PrRowView>,
    slug: Seq<char>,
    me: Seq<char>,
    ascii: bool,
    styled: bool,
) -> Seq<char> {
    if rows.len() == 0 {
        bare_section(faint_text(no_prs(slug, me), styled))
    } else {
        full_section(
            header_text("My PRs"@, LAVENDER, rows.len(), styled),
            table_text(prs::table_of(rows, ascii, Set::empty()), styled),
        )
    }
}

/// What a frame is about.
pub struct FrameOf {
    pub slug: Seq<char>,
    pub me: Seq<char>,
    /// The merged window, as the user wrote it.
    pub window: Seq<char>,
    pub ascii: bool,
    pub styled: bool,
    pub now: Timestamp,
}

/// The frame of sections: the merged pull requests, the queue, my open pull
/// requests, and the status line. A disabled section is left out.
pub open spec fn frame_text(
    s: SectionsView,
    f: FrameOf,
    clear: Seq<char>,
    status: Seq<char>,
) -> Seq<char> {
    let a = match s.merged {
        Some(rows) => clear + merged_part(
            rows,
            f.slug,
            f.me,
            f.window,
            f.ascii,
            f.styled,
            f.now,
        ),
        None => clear,
    };
    let b = match s.queue {
        Some(rows) => a + queue_part(rows, f.slug, f.ascii, f.styled, f.now),
        None => a,
    };
    let c = match s.prs {
        Some(rows) => b + prs_part(rows, f.slug, f.me, f.ascii, f.styled),
        None => b,
    };
    c + status + "\n"@
}

fn close(text: &mut String)
    ensures
        final(text)@ == old(text)@ + "\n"@,
{
    text.append("\n");
}

fn merged_text(
    rows: &Vec<merged::MergedRow>,
    slug: &str,
    me: &str,
    window: &str,
    ascii: bool,
    styled: bool,
    now: Timestamp,
) -> (r: String)
    requires
        now.valid(),
    ensures
        r@ == merged_part(
            crate::order::rows_view(rows@),
            slug@,
            me@,
            window@,
            ascii,
            styled,
            now,
        ),
{
    if rows.len() == 0 {
        let mut msg = "No PRs merged by ".to_string();
        msg.append(me);
        msg.append(" in ");
        msg.append(slug);
        msg.append(" in the last ");
        msg.append(window);
        msg.append(".");
        let mut out = empty_line(msg.as_str(), styled);
        close(&mut out);
        close(&mut out);
        out
    } else {
        let none: HashSet<i64> = HashSet::new();
        let t = merged::to_table_at(rows.as_slice(), ascii, &none, now);
        let mut out = header("Recently Merged", MAUVE, rows.len(), styled);
        close(&mut out);
        let body = render_table(&t, styled);
        out.append(body.as_str());
        close(&mut out);
        close(&mut out);
        out
    }
}

fn queue_text(
    rows: &Vec<queue::QueueRow>,
    slug: &str,
    ascii: bool,
    styled: bool,
    now: Timestamp,
) -> (r: String)
    requires
        now.valid(),
    ensures
        r@ == queue_part(crate::order::rows_view(rows@), slug@, ascii, styled, now),
{
    if rows.len() == 0 {
        let mut msg = "No merge queue (or it is empty) for ".to_string();
        msg.append(slug);
        msg.append(".");
        let mut out = empty_line(msg.as_str(), styled);
        close(&mut out);
        close(&mut out);
        out
    } else {
        let t = queue::to_table_at(rows.as_slice(), ascii, now);
        let mut out = header("Merge Queue", BLUE, rows.len(), styled);
        close(&mut out);
        let body = render_table(&t, styled);
        out.append(body.as_str());
        close(&mut out);
        close(&mut out);
        out
    }
}

fn prs_text(rows: &Vec<prs::PrRow>, slug: &str, me: &str, ascii: bool, styled: bool) -> (r: String)
    ensures
        r@ == prs_part(crate::order::rows_view(rows@), slug@, me@, ascii, styled),
{
    if rows.len() == 0 {
        let mut msg = "No open PRs by ".to_string();
        msg.append(me);
        msg.append(" in ");
        msg.append(slug);
        msg.append(".");
        let mut out = empty_line(msg.as_str(), styled);
        close(&mut out);
        close(&mut out);
        out
    } else {
        let none: HashSet<i64> = HashSet::new();
        let t = prs::to_table(rows.as_slice(), ascii, &none);
        let mut out = header("My PRs", LAVENDER, rows.len(), styled);
        close(&mut out);
        let body = render_table(&t, styled);
        out.append(body.as_str());
        close(&mut out);
        close(&mut out);
        out
    }
}

/// Write the frame: recently merged, then the merge queue, then my pull requests,
/// then the status line. An empty section collapses to a faint line. `clear` goes
/// in front, and clears the screen where that is wanted.
pub fn render_frame(
    s: &Sections,
    cli: &Cli,
    repo: &Repo,
    me: &str,
    status: &str,
    styled: bool,
    clear: &str,
    now: Timestamp,
) -> (r: String)
    requires
        now.valid(),
    ensures
        r@ == frame_text(
            s@,
            FrameOf {
                slug: repo.owner@ + "/"@ + repo.name@,
                me: me@,
                window: cli.merged_window.raw@,
                ascii: cli.ascii || !styled,
                styled,
                now,
            },
            clear@,
            status@,
        ),
{
    let ascii = cli.ascii || !styled;
    let slug = repo.slug();
    let mut out = clear.to_string();
    if let Some(rows) = &s.merged {
        let part = merged_text(
            rows,
            slug.as_str(),
            me,
            cli.merged_window.raw.as_str(),
            ascii,
            styled,
            now,
        );
        out.append(part.as_str());
    }
    if let Some(rows) = &s.queue {
        let part = queue_text(rows, slug.as_str(), ascii, styled, now);
        out.append(part.as_str());
    }
    if let Some(rows) = &s.prs {
        let part = prs_text(rows, slug.as_str(), me, ascii, styled);
        out.append(part.as_str());
    }
    out.append(status);
    close(&mut out);
    out
}

/// A frame has its parts in order, each exactly if its section is there: the
/// merged pull requests, the queue, my open ones, and the status line at the end.
pub proof fn a_frame_has_its_parts(
    s: SectionsView,
    f: FrameOf,
    clear: Seq<char>,
    status: Seq<char>,
)
    ensures
        frame_text(s, f, clear, status) == clear + (match s.merged {
            Some(rows) => merged_part(rows, f.slug, f.me, f.window, f.ascii, f.styled, f.now),
            None => Seq::empty(),
        }) + (match s.queue {
            Some(rows) => queue_part(rows, f.slug, f.ascii, f.styled, f.now),
            None => Seq::empty(),
        }) + (match s.prs {
            Some(rows) => prs_part(rows, f.slug, f.me, f.ascii, f.styled),
            None => Seq::empty(),
        }) + status + "\n"@,
{
    let none = Seq::<char>::empty();
    let m = match s.merged {
        Some(rows) => merged_part(rows, f.slug, f.me, f.window, f.ascii, f.styled, f.now),
        None => none,
    };
    let q = match s.queue {
        Some(rows) => queue_part(rows, f.slug, f.ascii, f.styled, f.now),
        None => none,
    };
    let p = match s.prs {
        Some(rows) => prs_part(rows, f.slug, f.me, f.ascii, f.styled),
        None => none,
    };
    assert(clear + none =~= clear);
    assert(clear + m + none =~= clear + m);
    assert(clear + m + q + none =~= clear + m + q);
}

} // verus!
