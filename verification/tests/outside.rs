use prowl::auth::{
    before_asking, client_id, environment_token, file_token, first_wait, poll_for_token, token,
    token_file, LoginError, PollStep, TokenChoice, CLIENT_ID,
};
use prowl::cache;
use prowl::github::Repo;
use prowl::open::{opener, url, Platform};

fn some(s: &str) -> Option<String> {
    Some(s.to_string())
}

#[test]
fn opener_matches_platform() {
    let (cmd, args) = opener(Platform::MacOs);
    assert_eq!(cmd, "open");
    assert!(args.is_empty());
    let (cmd, args) = opener(Platform::Windows);
    assert_eq!(cmd, "cmd");
    assert_eq!(args, &["/C", "start", ""]);
    let (cmd, args) = opener(Platform::Other);
    assert_eq!(cmd, "xdg-open");
    assert!(args.is_empty());
}

#[test]
fn rejects_non_web_urls() {
    for bad in [
        "file:///etc/passwd",
        "javascript:alert(1)",
        "ftp://example.com/x",
        "not a url",
        "",
    ] {
        assert!(url(bad, Platform::Other).is_err(), "should reject {bad:?}");
    }
}

#[test]
fn web_urls_become_commands() {
    let c = url("https://x/1", Platform::Windows).unwrap();
    assert_eq!(c.program, "cmd");
    assert_eq!(c.args, ["/C", "start", "", "https://x/1"]);
    let c = url("http://x", Platform::Other).unwrap();
    assert_eq!((c.program.as_str(), c.args.len()), ("xdg-open", 1));
    assert_eq!(
        url("HTTPS://x", Platform::MacOs).unwrap_err(),
        "refusing to open a non-web URL"
    );
}

#[test]
fn tokens_come_from_the_environment_first() {
    assert_eq!(environment_token(false, some("a"), some("b")), some("a"));
    assert_eq!(environment_token(false, some(""), some("b")), some("b"));
    assert_eq!(environment_token(false, None, some("")), None);
    assert_eq!(environment_token(true, some("a"), some("b")), None);
}

#[test]
fn tokens_are_stored_or_logged_in_for() {
    assert_eq!(
        token(false, false, some("t")),
        TokenChoice::Stored("t".to_string())
    );
    assert_eq!(token(false, true, None), TokenChoice::Login);
    assert_eq!(token(false, false, None), TokenChoice::Refuse);
    assert_eq!(token(true, false, some("t")), TokenChoice::Login);
    assert_eq!(file_token(" t\n"), some("t"));
    assert_eq!(file_token("\n"), None);
    assert_eq!(client_id(None), CLIENT_ID);
    assert_eq!(client_id(some("x")), "x");
}

#[test]
fn a_login_goes_on_until_it_is_decided() {
    assert_eq!(first_wait(0), 1);
    assert_eq!(first_wait(5), 5);
    assert_eq!(before_asking(false), None);
    assert_eq!(
        before_asking(true).unwrap().message(),
        "the device code expired before authorization; try again"
    );
    assert_eq!(
        poll_for_token(5, some("t"), some("slow_down")),
        PollStep::Granted("t".to_string())
    );
    assert_eq!(
        poll_for_token(5, None, some("authorization_pending")),
        PollStep::Wait(5)
    );
    assert_eq!(poll_for_token(5, None, some("slow_down")), PollStep::Wait(10));
    assert_eq!(
        poll_for_token(5, None, some("expired_token")),
        PollStep::Failed(LoginError::Expired)
    );
    assert_eq!(
        poll_for_token(5, None, some("access_denied")),
        PollStep::Failed(LoginError::Denied)
    );
    assert_eq!(
        poll_for_token(5, None, some("odd")),
        PollStep::Failed(LoginError::Failed("odd".to_string()))
    );
    assert_eq!(
        poll_for_token(5, None, None),
        PollStep::Failed(LoginError::Silent)
    );
}

#[test]
fn login_errors_say_what_happened() {
    assert_eq!(
        LoginError::Expired.message(),
        "the device code expired; try again"
    );
    assert_eq!(LoginError::Denied.message(), "authorization was denied");
    assert_eq!(
        LoginError::Failed("odd".to_string()).message(),
        "authorization failed: odd"
    );
    assert_eq!(LoginError::Silent.message(), "authorization failed");
}

#[test]
fn files_go_to_the_users_own_directories() {
    assert_eq!(
        token_file(some("/x"), some("/a"), some("/h")).unwrap(),
        ["/x", "prowl", "token"]
    );
    assert_eq!(
        token_file(None, some("/a"), some("/h")).unwrap(),
        ["/a", "prowl", "token"]
    );
    assert_eq!(
        token_file(None, None, some("/h")).unwrap(),
        ["/h", ".config", "prowl", "token"]
    );
    assert_eq!(token_file(None, None, None), None);
    assert_eq!(
        cache::cache_dir(None, None, some("/h")).unwrap(),
        ["/h", ".cache", "prowl"]
    );
    let repo = Repo {
        owner: "o".to_string(),
        name: "n".to_string(),
    };
    assert_eq!(cache::cache_file(&repo), "o_n.json");
    assert_eq!(cache::load(cache::VERSION, 7), Some(7));
    assert_eq!(cache::load(cache::VERSION + 1, 7), None);
}
