//! Naming a repository, and what to make of the server's answers.

use crate::text::{
    chars_of, find, find_in, find_is_first, occurs_at, rfind, rfind_in, stands_at, string_of, trim,
    trimmed_from, trimmed_to,
};
use vstd::prelude::*;

verus! {

/// The server's address.
pub const API: &'static str = "https://api.github.com";

/// A repository slug.
#[derive(Debug, PartialEq, Eq)]
pub struct Repo {
    pub owner: String,
    pub name: String,
}

/// What a repository slug says: owner and name.
impl View for Repo {
    type V = (Seq<char>, Seq<char>);

    open spec fn view(&self) -> (Seq<char>, Seq<char>) {
        (self.owner@, self.name@)
    }
}

impl Clone for Repo {
    fn clone(&self) -> (r: Self)
        ensures
            r@ == self@,
    {
        Repo { owner: self.owner.clone(), name: self.name.clone() }
    }
}

/// A text that is no repository slug.
#[derive(Debug, PartialEq, Eq)]
pub struct RepoError {
    pub slug: String,
}

impl RepoError {
    /// The message for the user.
    pub fn message(&self) -> (r: String)
        ensures
            r@ == "invalid repo `"@ + self.slug@ + "`, expected owner/name"@,
    {
        let mut s = "invalid repo `".to_string();
        s.append(self.slug.as_str());
        s.append("`, expected owner/name");
        s
    }
}

/// Owner and name of `owner/name`: neither is empty, and there is one slash.
pub open spec fn slug_parts(s: Seq<char>) -> Option<(Seq<char>, Seq<char>)> {
    let i = find(s, '/') as int;
    let name = s.skip(i + 1);
    if 0 < i < s.len() && name.len() > 0 && !name.contains('/') {
        Some((s.take(i), name))
    } else {
        None
    }
}

fn split_slug(s: &Vec<char>, from: usize, to: usize) -> (r: Option<Repo>)
    requires
        from <= to <= s@.len(),
    ensures
        match r {
            Some(x) => slug_parts(s@.subrange(from as int, to as int)) == Some(x@),
            None => slug_parts(s@.subrange(from as int, to as int)) is None,
        },
{
    let ghost t = s@.subrange(from as int, to as int);
    let i = find_in(s, '/', from, to);
    if i == from || i == to {
        return None;
    }
    let ghost name = t.skip(i + 1 - from);
    proof {
        assert(name =~= s@.subrange(i + 1, to as int));
        assert(t.take(i - from) =~= s@.subrange(from as int, i as int));
        find_is_first(name, '/');
    }
    if i + 1 == to {
        return None;
    }
    let j = find_in(s, '/', i + 1, to);
    if j < to {
        return None;
    }
    Some(Repo { owner: string_of(s, from, i), name: string_of(s, i + 1, to) })
}

impl Repo {
    /// Parse an `owner/name` slug.
    pub fn parse(slug: &str) -> (r: Result<Repo, RepoError>)
        ensures
            match r {
                Ok(x) => slug_parts(trim(slug@)) == Some(x@),
                Err(e) => slug_parts(trim(slug@)) is None && e.slug@ == slug@,
            },
    {
        let cs = chars_of(slug);
        let from = trimmed_from(&cs);
        let to = trimmed_to(&cs, from);
        match split_slug(&cs, from, to) {
            Some(r) => Ok(r),
            None => Err(RepoError { slug: slug.to_string() }),
        }
    }

    pub fn slug(&self) -> (r: String)
        ensures
            r@ == self.owner@ + "/"@ + self.name@,
    {
        let mut s = self.owner.clone();
        s.append("/");
        s.append(self.name.as_str());
        s
    }
}

/// A slug that is parsed, written and parsed again is the same repository.
pub proof fn a_slug_reads_back(s: Seq<char>)
    requires
        slug_parts(s) is Some,
    ensures
        ({
            let (owner, name) = slug_parts(s)->0;
            owner + "/"@ + name == s
        }),
{
    find_is_first(s, '/');
    reveal_strlit("/");
    let (owner, name) = slug_parts(s)->0;
    assert(owner + "/"@ + name =~= s);
}

/// `s` without the `.git` that it ends with, as often as it does.
pub open spec fn without_git(s: Seq<char>) -> Seq<char>
    decreases s.len(),
{
    if s.len() >= 4 && s.skip(s.len() - 4) == seq!['.', 'g', 'i', 't'] {
        without_git(s.take(s.len() - 4))
    } else {
        s
    }
}

/// Whether a character can stand before the `://` of a scheme: it ends neither a
/// user nor the part of a URL that names the host.
pub open spec fn is_scheme_char(c: char) -> bool {
    c != '/' && c != '?' && c != '#' && c != '@'
}

/// What follows the scheme of `s` and its `://`, the first one, if it has a scheme.
pub open spec fn after_scheme(s: Seq<char>) -> Option<Seq<char>>
    decreases s.len(),
{
    if s.len() < 3 {
        None
    } else if s[0] == ':' && s[1] == '/' && s[2] == '/' {
        Some(s.skip(3))
    } else if is_scheme_char(s[0]) {
        after_scheme(s.drop_first())
    } else {
        None
    }
}

/// Whether a character ends the part of a remote that names its user and host.
/// Without a scheme that is also a colon, before the path.
pub open spec fn ends_host(c: char, scheme: bool) -> bool {
    c == '/' || c == '?' || c == '#' || (!scheme && c == ':')
}

/// How long the part is that names the user and the host.
pub open spec fn authority_len(s: Seq<char>, scheme: bool) -> nat
    decreases s.len(),
{
    if s.len() == 0 || ends_host(s[0], scheme) {
        0
    } else {
        1 + authority_len(s.drop_first(), scheme)
    }
}

/// `s` without a user, which ends at the last `@` before the path.
pub open spec fn without_user(s: Seq<char>, scheme: bool) -> Seq<char> {
    let at = rfind(s.take(authority_len(s, scheme) as int), '@');
    if at >= 0 {
        s.skip(at + 1)
    } else {
        s
    }
}

/// What follows the host of `s`, if that is exactly github.com: the host ends at
/// a colon or a slash.
pub open spec fn after_host(s: Seq<char>) -> Option<Seq<char>> {
    if occurs_at(s, "github.com"@, 0) && s.len() > 10 && (s[10] == ':' || s[10] == '/') {
        Some(s.skip(11))
    } else {
        None
    }
}

/// A remote from its host on.
pub open spec fn from_host(s: Seq<char>) -> Seq<char> {
    match after_scheme(s) {
        Some(t) => without_user(t, true),
        None => without_user(s, false),
    }
}

/// The repository that a remote without surrounding white space names.
pub open spec fn remote_of(s: Seq<char>) -> Option<(Seq<char>, Seq<char>)> {
    match after_host(from_host(s)) {
        Some(rest) => slug_parts(rest),
        None => None,
    }
}

/// The repository that a remote URL names, in its https and ssh forms.
pub open spec fn remote_parts(url: Seq<char>) -> Option<(Seq<char>, Seq<char>)> {
    remote_of(without_git(trim(url)))
}

/// Whether a text can only be a host: nothing in it ends one, or ends a user.
pub open spec fn is_host(host: Seq<char>) -> bool {
    forall|i: int|
        0 <= i < host.len() ==> !ends_host(#[trigger] host[i], false) && host[i] != '@'
}

/// A remote with a scheme on any other host than github.com is rejected, whatever
/// its path holds.
pub proof fn a_url_elsewhere_is_rejected(scheme: Seq<char>, host: Seq<char>, path: Seq<char>)
    requires
        forall|i: int| 0 <= i < scheme.len() ==> is_scheme_char(#[trigger] scheme[i]),
        is_host(host),
        host != "github.com"@,
    ensures
        remote_of(scheme + seq![':', '/', '/'] + (host + seq!['/'] + path)) is None,
{
    let rest = host + seq!['/'] + path;
    scheme_is_dropped(scheme, rest);
    host_is_kept(host, seq!['/'] + path, true);
    assert(host + (seq!['/'] + path) =~= rest);
    other_host(host, seq!['/'] + path);
}

/// A remote without a scheme on any other host than github.com is rejected,
/// whatever its path holds besides.
pub proof fn an_address_elsewhere_is_rejected(host: Seq<char>, sep: char, path: Seq<char>)
    requires
        is_host(host),
        host != "github.com"@,
        sep == '/' || (sep == ':' && after_scheme(seq![':'] + path) is None),
    ensures
        remote_of(host + (seq![sep] + path)) is None,
{
    no_scheme(host, sep, path);
    host_is_kept(host, seq![sep] + path, false);
    other_host(host, seq![sep] + path);
}

proof fn scheme_is_dropped(scheme: Seq<char>, rest: Seq<char>)
    requires
        forall|i: int| 0 <= i < scheme.len() ==> is_scheme_char(#[trigger] scheme[i]),
    ensures
        after_scheme(scheme + seq![':', '/', '/'] + rest) == Some(rest),
    decreases scheme.len(),
{
    let s = scheme + seq![':', '/', '/'] + rest;
    if scheme.len() == 0 {
        assert(s.skip(3) =~= rest);
    } else {
        assert(s[0] == scheme[0]);
        assert(s[1] == if scheme.len() > 1 { scheme[1] } else { ':' });
        let t = scheme.drop_first();
        assert forall|i: int| 0 <= i < t.len() implies is_scheme_char(#[trigger] t[i]) by {
            assert(t[i] == scheme[i + 1]);
        }
        scheme_is_dropped(t, rest);
        assert(s.drop_first() =~= t + seq![':', '/', '/'] + rest);
    }
}

proof fn no_scheme(host: Seq<char>, sep: char, path: Seq<char>)
    requires
        is_host(host),
        sep == '/' || (sep == ':' && after_scheme(seq![':'] + path) is None),
    ensures
        after_scheme(host + (seq![sep] + path)) is None,
    decreases host.len(),
{
    let s = host + (seq![sep] + path);
    if host.len() == 0 {
        assert(s =~= seq![sep] + path);
    } else {
        assert(s[0] == host[0]);
        let t = host.drop_first();
        assert forall|i: int| 0 <= i < t.len() implies !ends_host(#[trigger] t[i], false) && t[i]
            != '@' by {
            assert(t[i] == host[i + 1]);
        }
        no_scheme(t, sep, path);
        assert(s.drop_first() =~= t + (seq![sep] + path));
    }
}

proof fn host_is_kept(host: Seq<char>, rest: Seq<char>, scheme: bool)
    requires
        is_host(host),
        rest.len() > 0,
        ends_host(rest[0], scheme),
    ensures
        without_user(host + rest, scheme) == host + rest,
{
    authority_is_host(host, rest, scheme);
    assert((host + rest).take(host.len() as int) =~= host);
    crate::text::rfind_is_last(host, '@');
}

proof fn authority_is_host(host: Seq<char>, rest: Seq<char>, scheme: bool)
    requires
        is_host(host),
        rest.len() > 0,
        ends_host(rest[0], scheme),
    ensures
        authority_len(host + rest, scheme) == host.len(),
    decreases host.len(),
{
    let s = host + rest;
    if host.len() > 0 {
        assert(s[0] == host[0]);
        let t = host.drop_first();
        assert forall|i: int| 0 <= i < t.len() implies !ends_host(#[trigger] t[i], false) && t[i]
            != '@' by {
            assert(t[i] == host[i + 1]);
        }
        authority_is_host(t, rest, scheme);
        assert(s.drop_first() =~= t + rest);
    }
}

proof fn other_host(host: Seq<char>, rest: Seq<char>)
    requires
        is_host(host),
        host != "github.com"@,
        rest.len() > 0,
        rest[0] == ':' || rest[0] == '/',
    ensures
        after_host(host + rest) is None,
{
    reveal_strlit("github.com");
    let s = host + rest;
    if occurs_at(s, "github.com"@, 0) && s.len() > 10 && (s[10] == ':' || s[10] == '/') {
        let g = s.subrange(0, 10);
        if host.len() < 10 {
            assert(g[host.len() as int] == rest[0]);
        } else if host.len() == 10 {
            assert(g =~= host);
        } else {
            assert(s[10] == host[10]);
            assert(!ends_host(host[10], false));
        }
    }
}

fn end_without_git(s: &Vec<char>, from: usize, to: usize) -> (r: usize)
    requires
        from <= to <= s@.len(),
    ensures
        from <= r <= to,
        without_git(s@.subrange(from as int, to as int)) == s@.subrange(from as int, r as int),
{
    let mut end: usize = to;
    while end - from >= 4 && s[end - 4] == '.' && s[end - 3] == 'g' && s[end - 2] == 'i' && s[end
        - 1] == 't'
        invariant
            from <= end <= to <= s@.len(),
            without_git(s@.subrange(from as int, to as int)) == without_git(
                s@.subrange(from as int, end as int),
            ),
        decreases end,
    {
        proof {
            let t = s@.subrange(from as int, end as int);
            assert(t.skip(t.len() - 4) =~= seq!['.', 'g', 'i', 't']);
            assert(t.take(t.len() - 4) =~= s@.subrange(from as int, end - 4));
        }
        end -= 4;
    }
    proof {
        let t = s@.subrange(from as int, end as int);
        if t.len() >= 4 && t.skip(t.len() - 4) == seq!['.', 'g', 'i', 't'] {
            let u = t.skip(t.len() - 4);
            assert(u[0] == s@[end - 4] && u[1] == s@[end - 3] && u[2] == s@[end - 2] && u[3]
                == s@[end - 1]);
        }
    }
    end
}

fn scheme_end(s: &Vec<char>, from: usize, to: usize) -> (r: Option<usize>)
    requires
        from <= to <= s@.len(),
    ensures
        match r {
            Some(i) => from <= i <= to && after_scheme(s@.subrange(from as int, to as int))
                == Some(s@.subrange(i as int, to as int)),
            None => after_scheme(s@.subrange(from as int, to as int)) is None,
        },
{
    let ghost t = s@.subrange(from as int, to as int);
    let mut i: usize = from;
    proof {
        assert(t.skip(0) =~= t);
    }
    while to - i >= 3
        invariant
            from <= i <= to <= s@.len(),
            t == s@.subrange(from as int, to as int),
            after_scheme(t) == after_scheme(t.skip(i - from)),
        decreases to - i,
    {
        proof {
            let u = t.skip(i - from);
            assert(u[0] == s@[i as int] && u[1] == s@[i + 1] && u[2] == s@[i + 2]);
            assert(u.skip(3) =~= s@.subrange(i + 3, to as int));
            assert(u.drop_first() =~= t.skip(i + 1 - from));
        }
        let c = s[i];
        if c == ':' && s[i + 1] == '/' && s[i + 2] == '/' {
            return Some(i + 3);
        }
        if c == '/' || c == '?' || c == '#' || c == '@' {
            return None;
        }
        i += 1;
    }
    None
}

fn host_start(s: &Vec<char>, from: usize, to: usize, scheme: bool) -> (r: usize)
    requires
        from <= to <= s@.len(),
    ensures
        from <= r <= to,
        without_user(s@.subrange(from as int, to as int), scheme) == s@.subrange(
            r as int,
            to as int,
        ),
{
    let ghost t = s@.subrange(from as int, to as int);
    let mut end: usize = from;
    proof {
        assert(t.skip(0) =~= t);
    }
    while end < to && !(s[end] == '/' || s[end] == '?' || s[end] == '#' || (!scheme && s[end]
        == ':'))
        invariant
            from <= end <= to <= s@.len(),
            t == s@.subrange(from as int, to as int),
            authority_len(t, scheme) == end - from + authority_len(t.skip(end - from), scheme),
        decreases to - end,
    {
        proof {
            assert(t.skip(end - from)[0] == s@[end as int]);
            assert(t.skip(end - from).drop_first() =~= t.skip(end + 1 - from));
        }
        end += 1;
    }
    proof {
        if end < to {
            assert(t.skip(end - from)[0] == s@[end as int]);
        }
        assert(authority_len(t, scheme) == end - from);
        assert(t.take(end - from) =~= s@.subrange(from as int, end as int));
        crate::text::rfind_is_last(t.take(end - from), '@');
    }
    match rfind_in(s, '@', from, end) {
        Some(i) => {
            proof {
                assert(t.skip(i + 1 - from) =~= s@.subrange(i + 1, to as int));
            }
            i + 1
        },
        None => from,
    }
}

/// Extract the repository from a github.com remote URL. The host is compared
/// exactly, so that look-alikes are rejected, and so are remotes on other hosts
/// whose paths hold its name.
pub fn parse_remote(url: &str) -> (r: Option<Repo>)
    ensures
        match r {
            Some(x) => remote_parts(url@) == Some(x@),
            None => remote_parts(url@) is None,
        },
{
    let cs = chars_of(url);
    let from = trimmed_from(&cs);
    let to = trimmed_to(&cs, from);
    let to = end_without_git(&cs, from, to);
    let ghost t = cs@.subrange(from as int, to as int);
    let from = match scheme_end(&cs, from, to) {
        Some(i) => host_start(&cs, i, to, true),
        None => host_start(&cs, from, to, false),
    };
    let ghost u = cs@.subrange(from as int, to as int);
    assert(u == from_host(t));
    let host = chars_of("github.com");
    proof {
        reveal_strlit("github.com");
    }
    let named = stands_at(&cs, &host, from);
    if to - from <= 10 || !named || !(cs[from + 10] == ':' || cs[from + 10] == '/') {
        proof {
            if u.len() > 10 {
                assert(u.subrange(0, 10) =~= cs@.subrange(from as int, from + 10));
                assert(u[10] == cs@[from + 10]);
            }
        }
        return None;
    }
    proof {
        assert(u.subrange(0, 10) =~= cs@.subrange(from as int, from + 10));
        assert(u[10] == cs@[from + 10]);
        assert(u.skip(11) =~= cs@.subrange(from + 11, to as int));
    }
    split_slug(&cs, from + 11, to)
}

/// The repository of a remote, or the message for the user.
pub fn detect_repo(url: &str) -> (r: Result<Repo, String>)
    ensures
        match r {
            Ok(x) => remote_parts(trim(url@)) == Some(x@),
            Err(m) => remote_parts(trim(url@)) is None && m@
                == "could not parse owner/name from `"@ + trim(url@)
                + "`; pass --repo owner/name"@,
        },
{
    let url = crate::text::trimmed(url);
    match parse_remote(url.as_str()) {
        Some(r) => Ok(r),
        None => {
            let mut s = "could not parse owner/name from `".to_string();
            s.append(url.as_str());
            s.append("`; pass --repo owner/name");
            Err(s)
        },
    }
}

/// Why a GraphQL answer is of no use.
#[derive(Debug, PartialEq, Eq)]
pub enum GraphqlError {
    /// The server reported an error.
    Server(String),
    /// The data could not be read.
    Data(String),
    /// There was no data.
    NoData,
}

/// What such an error says.
pub enum GraphqlFault {
    Server(Seq<char>),
    Data(Seq<char>),
    NoData,
}

impl GraphqlError {
    pub open spec fn fault(self) -> GraphqlFault {
        match self {
            GraphqlError::Server(m) => GraphqlFault::Server(m@),
            GraphqlError::Data(m) => GraphqlFault::Data(m@),
            GraphqlError::NoData => GraphqlFault::NoData,
        }
    }

    /// The message for the user.
    pub fn message(&self) -> (r: String)
        ensures
            r@ == match self.fault() {
                GraphqlFault::Server(m) => "GraphQL error: "@ + m,
                GraphqlFault::Data(m) => "failed to parse GraphQL data: "@ + m,
                GraphqlFault::NoData => "GraphQL response had no data"@,
            },
    {
        match self {
            GraphqlError::Server(m) => {
                let mut s = "GraphQL error: ".to_string();
                s.append(m.as_str());
                s
            },
            GraphqlError::Data(m) => {
                let mut s = "failed to parse GraphQL data: ".to_string();
                s.append(m.as_str());
                s
            },
            GraphqlError::NoData => "GraphQL response had no data".to_string(),
        }
    }
}

/// Decide what a GraphQL answer comes to. The server can send data beside errors
/// when some field cannot be had, so data that can be read is preferred. Where it
/// cannot be read, the server's first error says more than the parser's.
pub fn parse_graphql<T>(data: Option<Result<T, String>>, first_error: Option<String>) -> (r: Result<
    T,
    GraphqlError,
>)
    ensures
        match (data, first_error) {
            (Some(Ok(x)), _) => r == Ok::<T, GraphqlError>(x),
            (_, Some(m)) => r matches Err(e) && e.fault() == GraphqlFault::Server(m@),
            (Some(Err(m)), None) => r matches Err(e) && e.fault() == GraphqlFault::Data(m@),
            (None, None) => r matches Err(e) && e.fault() == GraphqlFault::NoData,
        },
{
    match data {
        Some(Ok(x)) => Ok(x),
        Some(Err(m)) => match first_error {
            Some(e) => Err(GraphqlError::Server(e)),
            None => Err(GraphqlError::Data(m)),
        },
        None => match first_error {
            Some(e) => Err(GraphqlError::Server(e)),
            None => Err(GraphqlError::NoData),
        },
    }
}

/// The message for a request that failed, by its HTTP status if it has one.
pub fn api_message(status: Option<u16>, error: &str) -> (r: String)
    ensures
        r@ == if status == Some(401u16) {
            "GitHub rejected the token (401); run `prowl --login`"@
        } else {
            "GitHub request failed: "@ + error@
        },
{
    if let Some(401) = status {
        return "GitHub rejected the token (401); run `prowl --login`".to_string();
    }
    let mut s = "GitHub request failed: ".to_string();
    s.append(error);
    s
}

/// The value of the authorization header.
pub fn bearer(token: &str) -> (r: String)
    ensures
        r@ == "Bearer "@ + token@,
{
    let mut s = "Bearer ".to_string();
    s.append(token);
    s
}

/// The path of a repository.
pub fn repo_path(repo: &Repo) -> (r: String)
    ensures
        r@ == crate::commits::repo_path(*repo),
{
    let mut s = "repos/".to_string();
    s.append(repo.owner.as_str());
    s.append("/");
    s.append(repo.name.as_str());
    s
}

/// A slug of an owner and a name is read as these, if neither is empty nor has a
/// slash in it.
pub proof fn an_owner_and_a_name_make_a_slug(owner: Seq<char>, name: Seq<char>)
    requires
        owner.len() > 0,
        name.len() > 0,
        !owner.contains('/'),
        !name.contains('/'),
    ensures
        slug_parts(owner + seq!['/'] + name) == Some((owner, name)),
{
    let s = owner + seq!['/'] + name;
    find_is_first(s, '/');
    let n = find(s, '/') as int;
    assert(s[owner.len() as int] == '/');
    assert(s.contains('/'));
    if n < owner.len() {
        assert(owner[n] == '/');
    }
    assert(n == owner.len());
    assert(s.take(n) =~= owner);
    assert(s.skip(n + 1) =~= name);
    find_is_first(name, '/');
}

/// A remote on github.com names its repository, in both forms: behind a scheme and
/// a user, and behind a user alone.
pub proof fn a_remote_names_its_repository(
    scheme: Seq<char>,
    user: Seq<char>,
    owner: Seq<char>,
    name: Seq<char>,
)
    requires
        forall|i: int| 0 <= i < scheme.len() ==> is_scheme_char(#[trigger] scheme[i]),
        is_host(user),
        owner.len() > 0,
        name.len() > 0,
        !owner.contains('/'),
        !name.contains('/'),
    ensures
        remote_of(
            scheme + seq![':', '/', '/'] + (user + seq!['@'] + ("github.com"@ + (seq!['/'] + (owner
                + seq!['/'] + name)))),
        ) == Some((owner, name)),
        remote_of(
            user + seq!['@'] + ("github.com"@ + (seq![':'] + (owner + seq!['/'] + name))),
        ) == Some((owner, name)),
{
    let slug = owner + seq!['/'] + name;
    reveal_strlit("github.com");
    an_owner_and_a_name_make_a_slug(owner, name);
    let web = user + seq!['@'] + ("github.com"@ + (seq!['/'] + slug));
    scheme_is_dropped(scheme, web);
    the_user_is_dropped(user, seq!['/'] + slug, true);
    the_host_is_left(seq!['/'] + slug);
    assert((seq!['/'] + slug).skip(1) =~= slug);
    let ssh = user + seq!['@'] + ("github.com"@ + (seq![':'] + slug));
    a_user_is_no_scheme(user, "github.com"@ + (seq![':'] + slug));
    the_user_is_dropped(user, seq![':'] + slug, false);
    the_host_is_left(seq![':'] + slug);
    assert((seq![':'] + slug).skip(1) =~= slug);
}

proof fn the_host_is_left(rest: Seq<char>)
    requires
        rest.len() > 0,
        rest[0] == ':' || rest[0] == '/',
    ensures
        after_host("github.com"@ + rest) == Some(rest.skip(1)),
{
    reveal_strlit("github.com");
    let s = "github.com"@ + rest;
    assert(s.subrange(0, 10) =~= "github.com"@);
    assert(s[10] == rest[0]);
    assert(s.skip(11) =~= rest.skip(1));
}

proof fn the_user_is_dropped(user: Seq<char>, rest: Seq<char>, scheme: bool)
    requires
        is_host(user),
        rest.len() > 0,
        ends_host(rest[0], scheme),
    ensures
        without_user(user + seq!['@'] + ("github.com"@ + rest), scheme) == "github.com"@ + rest,
{
    reveal_strlit("github.com");
    let head = user + seq!['@'] + "github.com"@;
    let s = user + seq!['@'] + ("github.com"@ + rest);
    assert(s =~= head + rest);
    assert forall|i: int| 0 <= i < head.len() implies !ends_host(#[trigger] head[i], scheme) by {
        if i < user.len() {
            assert(head[i] == user[i]);
            assert(!ends_host(user[i], false));
        } else if i > user.len() {
            assert(head[i] == "github.com"@[i - user.len() - 1]);
        }
    }
    the_authority_ends_there(head, rest, scheme);
    assert(s.take(head.len() as int) =~= head);
    crate::text::rfind_is_last(head, '@');
    let at = rfind(head, '@');
    assert(head[user.len() as int] == '@');
    if at > user.len() {
        assert(head[at] == "github.com"@[at - user.len() - 1]);
    }
    if at < user.len() {
        assert(head[user.len() as int] != '@');
    }
    assert(at == user.len());
    assert(s.skip(at + 1) =~= "github.com"@ + rest);
}

proof fn the_authority_ends_there(head: Seq<char>, rest: Seq<char>, scheme: bool)
    requires
        forall|i: int| 0 <= i < head.len() ==> !ends_host(#[trigger] head[i], scheme),
        rest.len() > 0,
        ends_host(rest[0], scheme),
    ensures
        authority_len(head + rest, scheme) == head.len(),
    decreases head.len(),
{
    let s = head + rest;
    if head.len() > 0 {
        assert(s[0] == head[0]);
        let t = head.drop_first();
        assert forall|i: int| 0 <= i < t.len() implies !ends_host(#[trigger] t[i], scheme) by {
            assert(t[i] == head[i + 1]);
        }
        the_authority_ends_there(t, rest, scheme);
        assert(s.drop_first() =~= t + rest);
    }
}

proof fn a_user_is_no_scheme(user: Seq<char>, rest: Seq<char>)
    requires
        is_host(user),
    ensures
        after_scheme(user + seq!['@'] + rest) is None,
    decreases user.len(),
{
    let s = user + seq!['@'] + rest;
    if user.len() > 0 {
        assert(s[0] == user[0]);
        let t = user.drop_first();
        assert forall|i: int| 0 <= i < t.len() implies !ends_host(#[trigger] t[i], false) && t[i]
            != '@' by {
            assert(t[i] == user[i + 1]);
        }
        a_user_is_no_scheme(t, rest);
        assert(s.drop_first() =~= t + seq!['@'] + rest);
        assert(!ends_host(user[0], false));
    }
}

/// What an answer comes to: data that can be read is taken, whatever errors come
/// with it; without it the server's error is told, and the parser's only where the
/// server tells none.
pub proof fn data_is_preferred_to_errors<T>(
    data: Option<Result<T, String>>,
    first_error: Option<String>,
    r: Result<T, GraphqlError>,
)
    requires
        call_ensures(parse_graphql::<T>, (data, first_error), r),
    ensures
        r is Ok <==> (data matches Some(d) && d is Ok),
        data matches Some(Ok(x)) ==> r == Ok::<T, GraphqlError>(x),
        r is Err && first_error is Some ==> r->Err_0 is Server,
        r is Err && first_error is None && data is None ==> r->Err_0 is NoData,
        r is Err && first_error is None && data is Some ==> r->Err_0 is Data,
{
}

} // verus!
