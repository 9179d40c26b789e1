//! Opening a page in the browser: which command to run, and what not to open.

use crate::text::{begins_with, has_prefix, views};
use vstd::prelude::*;

verus! {

/// The kinds of platform that differ in how they open a page.
#[derive(Clone, Copy, Debug, PartialEq, Eq, Structural)]
pub enum Platform {
    MacOs,
    Windows,
    Other,
}

/// The command of a platform, and what it takes before the address. On Windows
/// `start` is built into `cmd`; the empty argument is a window title, which keeps
/// a quoted address from being taken for it.
pub open spec fn opener_of(p: Platform) -> (Seq<char>, Seq<Seq<char>>) {
    match p {
        Platform::MacOs => ("open"@, Seq::empty()),
        Platform::Windows => ("cmd"@, seq!["/C"@, "start"@, ""@]),
        Platform::Other => ("xdg-open"@, Seq::empty()),
    }
}

/// The texts of arguments.
pub open spec fn args_view(args: Seq<&'static str>) -> Seq<Seq<char>> {
    Seq::new(args.len(), |i: int| args[i]@)
}

/// The command of a platform, and what it takes before the address.
pub fn opener(platform: Platform) -> (r: (&'static str, Vec<&'static str>))
    ensures
        (r.0@, args_view(r.1@)) == opener_of(platform),
{
    match platform {
        Platform::MacOs => {
            let args: Vec<&'static str> = Vec::new();
            assert(args_view(args@) =~= Seq::empty());
            ("open", args)
        },
        Platform::Windows => {
            let args: Vec<&'static str> = vec!["/C", "start", ""];
            assert(args_view(args@) =~= seq!["/C"@, "start"@, ""@]);
            ("cmd", args)
        },
        Platform::Other => {
            let args: Vec<&'static str> = Vec::new();
            assert(args_view(args@) =~= Seq::empty());
            ("xdg-open", args)
        },
    }
}

/// Whether an address is one of the web.
pub open spec fn is_web(url: Seq<char>) -> bool {
    has_prefix(url, "https://"@) || has_prefix(url, "http://"@)
}

/// A command to run.
#[derive(Debug)]
pub struct Launch {
    pub program: String,
    pub args: Vec<String>,
}

/// The command that opens an address. Only addresses of the web are opened, so
/// that a malformed one cannot come to mean anything else.
pub fn url(target: &str, platform: Platform) -> (r: Result<Launch, &'static str>)
    ensures
        match r {
            Ok(c) => is_web(target@) && c.program@ == opener_of(platform).0 && views(c.args@)
                == opener_of(platform).1.push(target@),
            Err(m) => !is_web(target@) && m@ == "refusing to open a non-web URL"@,
        },
{
    if !(begins_with(target, "https://") || begins_with(target, "http://")) {
        return Err("refusing to open a non-web URL");
    }
    let (program, fixed) = opener(platform);
    let mut args: Vec<String> = Vec::new();
    let mut i: usize = 0;
    while i < fixed.len()
        invariant
            i <= fixed@.len(),
            views(args@) =~= args_view(fixed@).take(i as int),
        decreases fixed@.len() - i,
    {
        let a = fixed[i].to_string();
        proof {
            assert(views(args@.push(a)) =~= views(args@).push(a@));
        }
        args.push(a);
        i += 1;
    }
    let last = target.to_string();
    proof {
        assert(views(args@) =~= args_view(fixed@));
        assert(views(args@.push(last)) =~= views(args@).push(last@));
    }
    args.push(last);
    Ok(Launch { program: program.to_string(), args })
}

/// Only a page of the web is opened, and it is what the command is given last.
pub proof fn only_the_web_is_opened(
    target: &str,
    platform: Platform,
    r: Result<Launch, &'static str>,
)
    requires
        call_ensures(url, (target, platform), r),
    ensures
        r is Ok <==> has_prefix(target@, "https://"@) || has_prefix(target@, "http://"@),
        r matches Ok(c) ==> c.args@.len() > 0 && c.args@.last()@ == target@,
{
    if let Ok(c) = r {
        let v = views(c.args@);
        assert(v.len() == c.args@.len());
        assert(v.last() == target@);
        assert(v[v.len() - 1] == c.args@[c.args@.len() - 1]@);
    }
}

} // verus!
