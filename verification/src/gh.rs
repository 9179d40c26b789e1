//! What to ask the `gh` command, and what to make of its output.

use crate::github::{slug_parts, Repo, RepoError};
use crate::text::{trim, trimmed, views};
use vstd::prelude::*;

verus! {

/// A variable of a query: its name and its value.
#[derive(Debug)]
pub struct Var {
    pub key: String,
    pub value: String,
}

/// `key=value`.
pub open spec fn assignment(key: Seq<char>, value: Seq<char>) -> Seq<char> {
    key + "="@ + value
}

/// The arguments for the first `n` variables: `-f key=value` each.
pub open spec fn var_args(vars: Seq<Var>, n: int) -> Seq<Seq<char>>
    decreases n,
{
    if n <= 0 {
        Seq::empty()
    } else {
        var_args(vars, n - 1).push("-f"@).push(
            assignment(vars[n - 1].key@, vars[n - 1].value@),
        )
    }
}

/// The arguments of a GraphQL query: the variables, which are always strings,
/// and the query.
pub open spec fn query_args(vars: Seq<Var>, query: Seq<char>) -> Seq<Seq<char>> {
    seq!["api"@, "graphql"@] + var_args(vars, vars.len() as int).push("-f"@).push(
        assignment("query"@, query),
    )
}

fn assign(key: &str, value: &str) -> (r: String)
    ensures
        r@ == assignment(key@, value@),
{
    let mut s = key.to_string();
    s.append("=");
    s.append(value);
    s
}

proof fn views_push(v: Seq<String>, s: String)
    ensures
        views(v.push(s)) == views(v).push(s@),
{
    assert(views(v.push(s)) =~= views(v).push(s@));
}

/// The arguments of a GraphQL query.
pub fn graphql_args(vars: &Vec<Var>, query: &str) -> (r: Vec<String>)
    ensures
        views(r@) == query_args(vars@, query@),
{
    let mut args: Vec<String> = Vec::new();
    args.push("api".to_string());
    args.push("graphql".to_string());
    let ghost head = seq!["api"@, "graphql"@];
    let mut i: usize = 0;
    proof {
        assert(views(args@) =~= head + var_args(vars@, 0));
    }
    while i < vars.len()
        invariant
            i <= vars@.len(),
            views(args@) == head + var_args(vars@, i as int),
        decreases vars@.len() - i,
    {
        let ghost before = var_args(vars@, i as int);
        let flag = "-f".to_string();
        let text = assign(vars[i].key.as_str(), vars[i].value.as_str());
        proof {
            views_push(args@, flag);
            views_push(args@.push(flag), text);
            assert((head + before).push(flag@).push(text@) =~= head + before.push(flag@).push(
                text@,
            ));
        }
        args.push(flag);
        args.push(text);
        i += 1;
    }
    let ghost before = var_args(vars@, i as int);
    let flag = "-f".to_string();
    let text = assign("query", query);
    proof {
        views_push(args@, flag);
        views_push(args@.push(flag), text);
        assert((head + before).push(flag@).push(text@) =~= head + before.push(flag@).push(text@));
    }
    args.push(flag);
    args.push(text);
    args
}

/// The first two arguments, which say enough: the rest can be a whole query.
pub open spec fn label_of(args: Seq<Seq<char>>) -> Seq<char> {
    if args.len() == 0 {
        Seq::empty()
    } else if args.len() == 1 {
        args[0]
    } else {
        args[0] + " "@ + args[1]
    }
}

/// The message for a run that failed: what it wrote to stderr, or else its exit
/// status.
pub open spec fn failure(args: Seq<Seq<char>>, status: Seq<char>, stderr: Seq<char>) -> Seq<char> {
    if trim(stderr).len() == 0 {
        "`gh "@ + label_of(args) + "` failed ("@ + status + ")"@
    } else {
        "`gh "@ + label_of(args) + "` failed: "@ + trim(stderr)
    }
}

/// The message for a run that failed.
pub fn failure_message(args: &Vec<String>, status: &str, stderr: &str) -> (r: String)
    ensures
        r@ == failure(views(args@), status@, stderr@),
{
    let mut s = "`gh ".to_string();
    let mut label = String::new();
    if args.len() > 0 {
        label.append(args[0].as_str());
        proof {
            assert(Seq::<char>::empty() + args@[0]@ =~= args@[0]@);
        }
        if args.len() > 1 {
            label.append(" ");
            label.append(args[1].as_str());
        }
    }
    proof {
        assert(label@ == label_of(views(args@)));
    }
    s.append(label.as_str());
    let detail = trimmed(stderr);
    proof {
        reveal_strlit("");
        assert(detail@.len() == 0 ==> detail@ =~= ""@);
    }
    if crate::text::same(detail.as_str(), "") {
        s.append("` failed (");
        s.append(status);
        s.append(")");
    } else {
        s.append("` failed: ");
        s.append(detail.as_str());
    }
    s
}

/// A name in the output of a command, unless it is blank.
pub fn named(output: &str) -> (r: Option<String>)
    ensures
        match r {
            Some(s) => s@ == trim(output@) && s@.len() > 0,
            None => trim(output@).len() == 0,
        },
{
    let s = trimmed(output);
    proof {
        reveal_strlit("");
        assert(s@.len() == 0 ==> s@ =~= ""@);
    }
    if crate::text::same(s.as_str(), "") {
        None
    } else {
        Some(s)
    }
}

/// The authenticated user's login, from the output of the command.
pub fn me(output: &str) -> (r: Result<String, String>)
    ensures
        match r {
            Ok(s) => s@ == trim(output@) && s@.len() > 0,
            Err(m) => trim(output@).len() == 0 && m@
                == "could not determine the current user from `gh api user`"@,
        },
{
    match named(output) {
        Some(s) => Ok(s),
        None => Err("could not determine the current user from `gh api user`".to_string()),
    }
}

/// The default branch of a repository, from the output of the command.
pub fn default_branch(repo: &Repo, output: &str) -> (r: Result<String, String>)
    ensures
        match r {
            Ok(s) => s@ == trim(output@) && s@.len() > 0,
            Err(m) => trim(output@).len() == 0 && m@
                == "could not determine the default branch for "@ + (repo.owner@ + "/"@
                + repo.name@),
        },
{
    match named(output) {
        Some(s) => Ok(s),
        None => {
            let mut m = "could not determine the default branch for ".to_string();
            let slug = repo.slug();
            m.append(slug.as_str());
            Err(m)
        },
    }
}

/// The repository by the first command that names one. `gh repo view` misbehaves
/// inside worktrees, so that without an answer the default that is set counts;
/// `None` asks for it.
pub fn detect_repo(output: Option<&str>) -> (r: Option<Result<Repo, RepoError>>)
    ensures
        match output {
            Some(o) => if trim(o@).len() == 0 {
                r is None
            } else {
                match r {
                    Some(Ok(x)) => slug_parts(trim(trim(o@))) == Some(x@),
                    Some(Err(e)) => slug_parts(trim(trim(o@))) is None && e.slug@ == trim(o@),
                    None => false,
                }
            },
            None => r is None,
        },
{
    match output {
        Some(o) => match named(o) {
            Some(slug) => Some(Repo::parse(slug.as_str())),
            None => None,
        },
        None => None,
    }
}

} // verus!
