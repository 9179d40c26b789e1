//! Where the token comes from, and the steps of the device login.

use crate::text::{opt_view, same, trim, trimmed, views};
use vstd::prelude::*;

verus! {

/// The OAuth app's client id, which is public.
pub const CLIENT_ID: &'static str = "Ov23cttVkd9tfQwhdh3z";

pub const SCOPE: &'static str = "repo";

pub const KEYRING_SERVICE: &'static str = "prowl";

pub const KEYRING_ACCOUNT: &'static str = "github.com";

fn blank(s: &str) -> (r: bool)
    ensures
        r == (s@.len() == 0),
{
    proof {
        reveal_strlit("");
        assert(s@.len() == 0 ==> s@ =~= ""@);
    }
    same(s, "")
}

/// A value, if it is there and not empty.
pub open spec fn filled(s: Option<Seq<char>>) -> Option<Seq<char>> {
    match s {
        Some(t) => if t.len() == 0 {
            None
        } else {
            Some(t)
        },
        None => None,
    }
}

/// The token of the environment, the program's own variable first. A forced
/// login does not look at it.
pub fn environment_token(
    force_login: bool,
    prowl_token: Option<String>,
    github_token: Option<String>,
) -> (r: Option<String>)
    ensures
        opt_view(r) == if force_login {
            None
        } else if filled(opt_view(prowl_token)) is Some {
            filled(opt_view(prowl_token))
        } else {
            filled(opt_view(github_token))
        },
{
    if force_login {
        return None;
    }
    if let Some(t) = prowl_token {
        if !blank(t.as_str()) {
            return Some(t);
        }
    }
    if let Some(t) = github_token {
        if !blank(t.as_str()) {
            return Some(t);
        }
    }
    None
}

/// What to do for a token when the environment has none.
#[derive(Debug, PartialEq, Eq)]
pub enum TokenChoice {
    /// Use the stored one.
    Stored(String),
    /// Log in, and store what comes of it.
    Login,
    /// There is no terminal to log in from.
    Refuse,
}

/// The message when there is no way to a token.
pub const NOT_AUTHENTICATED: &'static str =
    "not authenticated: run `prowl --login`, or set GITHUB_TOKEN";

/// Decide for a token when the environment has none: the stored one unless a
/// login is forced, or else the device login, which needs a terminal unless it
/// is forced.
pub fn token(force_login: bool, interactive: bool, stored: Option<String>) -> (r: TokenChoice)
    ensures
        match r {
            TokenChoice::Stored(t) => !force_login && stored == Some(t),
            TokenChoice::Login => force_login || (stored is None && interactive),
            TokenChoice::Refuse => !force_login && stored is None && !interactive,
        },
{
    if !force_login {
        if let Some(t) = stored {
            return TokenChoice::Stored(t);
        }
        if !interactive {
            return TokenChoice::Refuse;
        }
    }
    TokenChoice::Login
}

/// The token in the text of a file, unless it is blank.
pub fn file_token(text: &str) -> (r: Option<String>)
    ensures
        opt_view(r) == filled(Some(trim(text@))),
{
    let s = trimmed(text);
    if blank(s.as_str()) {
        None
    } else {
        Some(s)
    }
}

/// The client id: that of the environment, or the program's own.
pub fn client_id(from_env: Option<String>) -> (r: String)
    ensures
        r@ == match from_env {
            Some(s) => s@,
            None => CLIENT_ID@,
        },
{
    match from_env {
        Some(s) => s,
        None => CLIENT_ID.to_string(),
    }
}

/// How a login can fail.
#[derive(Debug, PartialEq, Eq)]
pub enum LoginError {
    /// The time for it ran out.
    TimedOut,
    /// The server says that the code expired.
    Expired,
    Denied,
    /// Anything else that the server says.
    Failed(String),
    /// The server says nothing.
    Silent,
}

impl LoginError {
    /// The message for the user.
    pub fn message(&self) -> (r: String)
        ensures
            r@ == match *self {
                LoginError::TimedOut =>
                    "the device code expired before authorization; try again"@,
                LoginError::Expired => "the device code expired; try again"@,
                LoginError::Denied => "authorization was denied"@,
                LoginError::Failed(m) => "authorization failed: "@ + m@,
                LoginError::Silent => "authorization failed"@,
            },
    {
        match self {
            LoginError::TimedOut => {
                "the device code expired before authorization; try again".to_string()
            },
            LoginError::Expired => "the device code expired; try again".to_string(),
            LoginError::Denied => "authorization was denied".to_string(),
            LoginError::Failed(m) => {
                let mut s = "authorization failed: ".to_string();
                s.append(m.as_str());
                s
            },
            LoginError::Silent => "authorization failed".to_string(),
        }
    }
}

/// What an answer to the question for a token comes to.
#[derive(Debug, PartialEq, Eq)]
pub enum PollStep {
    /// Here is the token.
    Granted(String),
    /// Ask again after so many seconds.
    Wait(u64),
    Failed(LoginError),
}

/// How long to wait before the first question: as long as the server says, and a
/// second at least.
pub fn first_wait(interval: u64) -> (r: u64)
    ensures
        r == if interval < 1 {
            1u64
        } else {
            interval
        },
{
    if interval < 1 {
        1
    } else {
        interval
    }
}

/// The wait after the server asks to slow down: five seconds more, as far as the
/// machine can count.
pub open spec fn slower(interval: u64) -> u64 {
    if interval > u64::MAX - 5 {
        u64::MAX
    } else {
        (interval + 5) as u64
    }
}

/// Whether the time for the login is over, before a question.
pub fn before_asking(expired: bool) -> (r: Option<LoginError>)
    ensures
        r == if expired {
            Some(LoginError::TimedOut)
        } else {
            None
        },
{
    if expired {
        Some(LoginError::TimedOut)
    } else {
        None
    }
}

/// What an answer comes to: a token ends the login, a pending authorization and
/// a request to slow down continue it, and every other error ends it.
pub fn poll_for_token(interval: u64, access_token: Option<String>, error: Option<String>) -> (r:
    PollStep)
    ensures
        match access_token {
            Some(t) => r == PollStep::Granted(t),
            None => match error {
                Some(e) => if e@ == "authorization_pending"@ {
                    r == PollStep::Wait(interval)
                } else if e@ == "slow_down"@ {
                    r == PollStep::Wait(slower(interval))
                } else if e@ == "expired_token"@ {
                    r == PollStep::Failed(LoginError::Expired)
                } else if e@ == "access_denied"@ {
                    r == PollStep::Failed(LoginError::Denied)
                } else {
                    r == PollStep::Failed(LoginError::Failed(e))
                },
                None => r == PollStep::Failed(LoginError::Silent),
            },
        },
{
    if let Some(t) = access_token {
        return PollStep::Granted(t);
    }
    match error {
        Some(e) => {
            if same(e.as_str(), "authorization_pending") {
                PollStep::Wait(interval)
            } else if same(e.as_str(), "slow_down") {
                if interval > u64::MAX - 5 {
                    PollStep::Wait(u64::MAX)
                } else {
                    PollStep::Wait(interval + 5)
                }
            } else if same(e.as_str(), "expired_token") {
                PollStep::Failed(LoginError::Expired)
            } else if same(e.as_str(), "access_denied") {
                PollStep::Failed(LoginError::Denied)
            } else {
                PollStep::Failed(LoginError::Failed(e))
            }
        },
        None => PollStep::Failed(LoginError::Silent),
    }
}

/// The parts of a path under the user's own directory: the first directory that
/// is set, or `folder` in the home directory.
pub open spec fn own_path(
    first: Option<Seq<char>>,
    second: Option<Seq<char>>,
    home: Option<Seq<char>>,
    folder: Seq<char>,
) -> Option<Seq<Seq<char>>> {
    match first {
        Some(d) => Some(seq![d]),
        None => match second {
            Some(d) => Some(seq![d]),
            None => match home {
                Some(d) => Some(seq![d, folder]),
                None => None,
            },
        },
    }
}

/// The texts of parts, if there are any.
pub open spec fn parts_view(parts: Option<Vec<String>>) -> Option<Seq<Seq<char>>> {
    match parts {
        Some(v) => Some(views(v@)),
        None => None,
    }
}

/// The parts of a path under the user's own directory.
pub fn own_dir(
    first: Option<String>,
    second: Option<String>,
    home: Option<String>,
    folder: &str,
) -> (r: Option<Vec<String>>)
    ensures
        parts_view(r) == own_path(opt_view(first), opt_view(second), opt_view(home), folder@),
{
    let mut parts: Vec<String> = Vec::new();
    if let Some(d) = first {
        parts.push(d);
        assert(views(parts@) =~= seq![d@]);
        return Some(parts);
    }
    if let Some(d) = second {
        parts.push(d);
        assert(views(parts@) =~= seq![d@]);
        return Some(parts);
    }
    match home {
        Some(d) => {
            parts.push(d);
            let f = folder.to_string();
            parts.push(f);
            assert(views(parts@) =~= seq![d@, folder@]);
            Some(parts)
        },
        None => None,
    }
}

/// The parts of the path of the token file: `prowl/token` in the configuration
/// directory.
pub fn token_file(
    xdg_config_home: Option<String>,
    appdata: Option<String>,
    home: Option<String>,
) -> (r: Option<Vec<String>>)
    ensures
        parts_view(r) == match own_path(
            opt_view(xdg_config_home),
            opt_view(appdata),
            opt_view(home),
            ".config"@,
        ) {
            Some(p) => Some(p.push("prowl"@).push("token"@)),
            None => None,
        },
{
    match own_dir(xdg_config_home, appdata, home, ".config") {
        Some(parts) => {
            let mut parts = parts;
            let ghost before = views(parts@);
            let a = "prowl".to_string();
            let b = "token".to_string();
            parts.push(a);
            parts.push(b);
            assert(views(parts@) =~= before.push("prowl"@).push("token"@));
            Some(parts)
        },
        None => None,
    }
}

/// A login is asked for exactly if it is forced, or nothing is stored and there is
/// a terminal to log in from; and what is stored is used exactly if no login is
/// forced.
pub proof fn a_login_is_the_last_resort(
    force_login: bool,
    interactive: bool,
    stored: Option<String>,
    r: TokenChoice,
)
    requires
        call_ensures(token, (force_login, interactive, stored), r),
    ensures
        r is Login <==> force_login || (stored is None && interactive),
        r is Stored <==> !force_login && stored is Some,
        r is Refuse <==> !force_login && stored is None && !interactive,
{
}

/// The login goes on exactly while the server says that it is pending or asks to
/// slow down, and ends with the token as soon as there is one.
pub proof fn a_login_waits_while_it_is_pending(
    interval: u64,
    access_token: Option<String>,
    error: Option<String>,
    r: PollStep,
)
    requires
        call_ensures(poll_for_token, (interval, access_token, error), r),
    ensures
        r is Granted <==> access_token is Some,
        r is Wait <==> access_token is None && (error matches Some(e) && (e@
            == "authorization_pending"@ || e@ == "slow_down"@)),
        r matches PollStep::Wait(n) ==> n >= interval,
        (r matches PollStep::Wait(n) && n > interval) ==> (error matches Some(e) && e@
            == "slow_down"@),
{
}

/// The environment's token is the program's own where it is set, and else the
/// general one; an empty one counts as none, and a forced login looks at neither.
pub proof fn the_own_token_comes_first(
    force_login: bool,
    own: Option<String>,
    general: Option<String>,
    r: Option<String>,
)
    requires
        call_ensures(environment_token, (force_login, own, general), r),
    ensures
        force_login ==> r is None,
        !force_login && (own matches Some(t) && t@.len() > 0) ==> opt_view(r) == opt_view(own),
        !force_login && !(own matches Some(t) && t@.len() > 0) && (general matches Some(t)
            && t@.len() > 0) ==> opt_view(r) == opt_view(general),
        !(own matches Some(t) && t@.len() > 0) && !(general matches Some(t) && t@.len() > 0)
            ==> r is None,
{
}

/// A path lies in the first directory that is set, and in a folder of the home
/// directory only where neither of the others is.
pub proof fn the_first_directory_counts(
    first: Option<Seq<char>>,
    second: Option<Seq<char>>,
    home: Option<Seq<char>>,
    folder: Seq<char>,
)
    ensures
        first matches Some(d) ==> own_path(first, second, home, folder) == Some(seq![d]),
        first is None ==> (second matches Some(d) ==> own_path(first, second, home, folder) == Some(
            seq![d],
        )),
        first is None && second is None ==> (home matches Some(d) ==> own_path(
            first,
            second,
            home,
            folder,
        ) == Some(seq![d, folder])),
        own_path(first, second, home, folder) is None <==> first is None && second is None && home
            is None,
{
}

} // verus!
