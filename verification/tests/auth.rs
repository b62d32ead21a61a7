//! Who may use the machine.

use std::collections::VecDeque;

use local_api::auth::{
    auth_middleware, check, ct_eq, init_sessions, live_only, login, logout, merge_loaded,
    new_sessions, next_delay, password_hash, session_token, verify_password, AuthReply,
    AuthRequest, LoginRequest, OkResponse, Sessions, FIRST_DELAY_SECS, LAST_DELAY_SECS,
    UNAUTHORIZED, WRONG_PASSWORD_BODY,
};
use local_api::config::Config;
use local_api::effects::{Answer, Ask, Script};
use local_api::exec::CommandOutput;

const HASH: &str = "$6$UG3IURKt1uqugrtk$i3e3tXg2NMIXuOb9JXztEAwCcsIcfn81WYBkzsfmwA7keyOajafp/PAAlFtcrMHVXo3cXK9z03YRRLaplZZm90";
const PASSWORD: &str = "password";

const LOOPBACK: Option<&str> = Some("127.0.0.1:5000");
const OFF_BOX: Option<&str> = Some("[fd00:42::5]:5000");

struct FakeHost {
    calls: Vec<String>,
    script: Vec<(String, VecDeque<Result<String, String>>)>,
    files: Vec<(String, String)>,
    sessions: Sessions,
}

impl FakeHost {
    fn new() -> Self {
        FakeHost { calls: Vec::new(), script: Vec::new(), files: Vec::new(), sessions: new_sessions() }
    }

    fn push(&mut self, prefix: &str, answer: Result<String, String>) {
        match self.script.iter_mut().find(|(p, _)| p == prefix) {
            Some((_, q)) => q.push_back(answer),
            None => self.script.push((prefix.to_string(), VecDeque::from([answer]))),
        }
    }

    /// What a command answers; the last answer repeats.
    fn ok(mut self, prefix: &str, out: &str) -> Self {
        self.push(prefix, Ok(out.to_string()));
        self
    }

    fn fail(mut self, prefix: &str, err: &str) -> Self {
        self.push(prefix, Err(err.to_string()));
        self
    }

    /// The longest matching prefix wins.
    fn answer(&mut self, cmd: &str) -> Result<String, String> {
        self.calls.push(cmd.to_string());
        let best = self
            .script
            .iter_mut()
            .filter(|(p, _)| cmd.starts_with(p.as_str()))
            .max_by_key(|(p, _)| p.len());
        match best {
            Some((_, q)) if q.len() > 1 => q.pop_front().unwrap(),
            Some((_, q)) => q.front().unwrap().clone(),
            None => Err(format!("unscripted command: {cmd}")),
        }
    }

    fn calls(&self) -> Vec<String> {
        self.calls.clone()
    }

    fn ran(&self, needle: &str) -> bool {
        self.calls.iter().any(|c| c.contains(needle))
    }

    fn position(&self, needle: &str) -> Option<usize> {
        self.calls.iter().position(|c| c.contains(needle))
    }

    fn run(&mut self, bin: &str, args: &[String], input: &Option<String>) -> Answer {
        let cmd = match input {
            Some(text) => format!("{bin}-{} {text}", args[0]),
            None => format!("{bin} {}", args.join(" ")),
        };
        let (success, stdout, stderr) = match self.answer(&cmd) {
            Ok(out) => (true, out, String::new()),
            Err(err) => (false, String::new(), err),
        };
        Answer::Output(Ok(CommandOutput { success, stdout, stderr }))
    }

    fn perform(&mut self, ask: Ask) -> Answer {
        match ask {
            Ask::Run { bin, args, input, .. } => self.run(&bin, &args, &input),
            Ask::Sleep { .. } => Answer::Done,
            Ask::ReadText { path } => Answer::Text(self.file(&path)),
            Ask::LoadFile { path } => Answer::File(Ok(self.file(&path))),
            Ask::WriteFile { path, text } | Ask::ReplaceFile { path, text } => {
                self.put(&path, &text);
                Answer::Did(Ok(()))
            }
            Ask::RemoveFile { path } => {
                self.files.retain(|(p, _)| *p != path);
                Answer::Did(Ok(()))
            }
            Ask::EnsureDir { .. } => Answer::Did(Ok(())),
            Ask::Session { token } => Answer::Expiry(self.sessions.expiry_of(&token)),
            Ask::AddSession { token, expiry } => {
                Answer::Snapshot(self.sessions.insert(&token, expiry))
            }
            Ask::DropSession { token } => Answer::Snapshot(self.sessions.revoke(&token)),
            Ask::MergeSessions { stored } => Answer::Snapshot(self.sessions.merge(&stored)),
            other => panic!("nothing answers {other:?}"),
        }
    }

    fn status_of(&mut self, cfg: &Config, req: AuthRequest) -> u16 {
        if self.drive(|s| auth_middleware(s, cfg, &req, now_secs())) {
            200
        } else {
            UNAUTHORIZED
        }
    }

    fn do_login(&mut self, cfg: &Config, password: &str) -> AuthReply {
        let token = session_token();
        let body = LoginRequest { password: password.to_string() };
        self.drive(|s| login(s, cfg, &body, &token, now_secs()))
    }

    fn file(&self, path: &str) -> Option<String> {
        self.files.iter().find(|(p, _)| p == path).map(|(_, t)| t.clone())
    }

    fn put(&mut self, path: &str, text: &str) {
        self.files.retain(|(p, _)| p != path);
        self.files.push((path.to_string(), text.to_string()));
    }

    /// With a file on the machine.
    fn with(mut self, path: &str, text: &str) -> Self {
        self.put(path, text);
        self
    }

    /// Runs a procedure, answering what it asks, until it is done.
    fn drive<T>(&mut self, f: impl Fn(&mut Script) -> Result<T, Ask>) -> T {
        let mut script = Script::new();
        loop {
            match f(&mut script) {
                Ok(done) => return done,
                Err(ask) => {
                    let answer = self.perform(ask);
                    script.answer(answer);
                }
            }
        }
    }
}

fn now_secs() -> i64 {
    1_757_000_000
}

fn write_config(body: &str) -> (FakeHost, Config) {
    (FakeHost::new().with("/etc/config.toml", body), Config::for_test("/etc/config.toml"))
}

fn provisioned() -> (FakeHost, Config) {
    write_config(&format!(
        "[homelab]\nhomelab_password_hash = \"{HASH}\"\n[tunnel]\naccount_token = \"cluster-tok\"\n"
    ))
}

fn unprovisioned() -> (FakeHost, Config) {
    write_config("[homelab]\nhostname = \"yolab\"\n")
}

fn request(uri: &str, peer: Option<&str>) -> AuthRequest {
    AuthRequest {
        path: uri.into(),
        cluster: None,
        loopback: peer.is_some_and(|p| p.starts_with("127.") || p.starts_with("[::1]")),
        session: None,
    }
}

fn with_cluster(req: AuthRequest, value: &str) -> AuthRequest {
    AuthRequest { cluster: Some(value.into()), ..req }
}

fn with_session(req: AuthRequest, token: &str) -> AuthRequest {
    AuthRequest { session: Some(token.into()), ..req }
}

#[test]
fn ct_eq_matches_identical() {
    assert!(ct_eq("s3cret-token", "s3cret-token"));
}

#[test]
fn ct_eq_rejects_different() {
    assert!(!ct_eq("s3cret-token", "s3cret-tokeN"));
    assert!(!ct_eq("short", "longer-value"));
}

#[test]
fn ct_eq_rejects_empty() {
    assert!(!ct_eq("", ""));
    assert!(!ct_eq("", "anything"));
    assert!(!ct_eq("anything", ""));
}

#[test]
fn password_hash_reads_the_configured_hash() {
    let (mut host, cfg) = provisioned();
    assert_eq!(host.drive(|s| password_hash(s, &cfg)), HASH);
}

#[test]
fn password_hash_is_empty_when_absent_or_unreadable() {
    let (mut host, cfg) = unprovisioned();
    assert_eq!(host.drive(|s| password_hash(s, &cfg)), "");

    let missing = Config::for_test("/nonexistent/config.toml");
    assert_eq!(host.drive(|s| password_hash(s, &missing)), "");
}

#[test]
fn verify_password_accepts_the_right_password() {
    assert!(verify_password(PASSWORD, HASH));
}

#[test]
fn verify_password_rejects_the_wrong_password() {
    assert!(!verify_password("not-the-password", HASH));
    assert!(!verify_password("", HASH));
}

#[test]
fn verify_password_never_succeeds_against_an_empty_hash() {
    assert!(!verify_password("anything", ""));
    assert!(!verify_password("", ""));
}

#[test]
fn loopback_is_allowed_when_no_password_is_configured() {
    let (mut host, cfg) = unprovisioned();
    assert_eq!(
        host.status_of(&cfg, request("/api/protected", LOOPBACK)),
        200
    );
    assert_eq!(
        host.status_of(&cfg, request("/api/protected", Some("[::1]:5000"))),
        200
    );
}

#[test]
fn off_box_callers_are_rejected_when_no_password_is_configured() {
    let (mut host, cfg) = unprovisioned();
    assert_eq!(
        host.status_of(&cfg, request("/api/protected", OFF_BOX)),
        401
    );
}

#[test]
fn a_request_with_no_connect_info_is_not_treated_as_loopback() {
    let (mut host, cfg) = unprovisioned();
    assert_eq!(
        host.status_of(&cfg, request("/api/protected", None)),
        401
    );
}

#[test]
fn a_session_cookie_does_not_open_an_unprovisioned_node_from_off_box() {
    let (mut host, cfg) = unprovisioned();
    host.sessions.insert("valid-token", now_secs() + 3600);
    assert_eq!(
        host.status_of(&cfg, with_session(request("/api/protected", OFF_BOX), "valid-token")
        ),
        401
    );
}

#[test]
fn the_cluster_token_authorizes_a_call_from_another_node() {
    let (mut host, cfg) = provisioned();
    let req = with_cluster(
        request("/api/protected", OFF_BOX),
        "cluster-tok",
    );
    assert_eq!(host.status_of(&cfg, req), 200);
}

#[test]
fn a_wrong_cluster_token_is_rejected() {
    let (mut host, cfg) = provisioned();
    let req = with_cluster(
        request("/api/protected", OFF_BOX),
        "wrong-tok",
    );
    assert_eq!(
        host.status_of(&cfg, req),
        401
    );
}

#[test]
fn an_empty_cluster_token_never_authorizes() {
    let (mut host, cfg) = write_config("[homelab]\nhomelab_password_hash = \"x\"\n");
    for presented in ["", " "] {
        let req = with_cluster(
            request("/api/protected", OFF_BOX),
            presented,
        );
        assert_eq!(
            host.status_of(&cfg, req),
            401
        );
    }
}

#[test]
fn a_cluster_token_that_is_a_prefix_of_the_real_one_is_rejected() {
    let (mut host, cfg) = provisioned();
    let req = with_cluster(
        request("/api/protected", OFF_BOX),
        "cluster",
    );
    assert_eq!(
        host.status_of(&cfg, req),
        401
    );
}

#[test]
fn a_live_session_cookie_is_accepted() {
    let (mut host, cfg) = provisioned();
    host.sessions.insert("live-token", now_secs() + 3600);
    assert_eq!(
        host.status_of(&cfg, with_session(request("/api/protected", OFF_BOX), "live-token")
        ),
        200
    );
}

#[test]
fn an_expired_session_cookie_is_rejected() {
    let (mut host, cfg) = provisioned();
    host.sessions.insert("stale-token", now_secs() - 1);
    assert_eq!(
        host.status_of(&cfg, with_session(request("/api/protected", OFF_BOX), "stale-token")
        ),
        401
    );
}

#[test]
fn an_unknown_session_token_is_rejected() {
    let (mut host, cfg) = provisioned();
    assert_eq!(
        host.status_of(&cfg, with_session(request("/api/protected", OFF_BOX), "never-issued")
        ),
        401
    );
}

#[test]
fn a_request_with_no_cookie_is_rejected_once_a_password_exists() {
    let (mut host, cfg) = provisioned();
    assert_eq!(
        host.status_of(&cfg, request("/api/protected", OFF_BOX)),
        401
    );
}

#[test]
fn loopback_still_needs_a_session_once_a_password_exists() {
    let (mut host, cfg) = provisioned();
    assert_eq!(
        host.status_of(&cfg, request("/api/protected", LOOPBACK)),
        401
    );
}

#[test]
fn an_empty_session_cookie_is_rejected() {
    let (mut host, cfg) = provisioned();
    host.sessions.insert("", now_secs() + 3600);
    assert_eq!(
        host.status_of(&cfg, with_session(request("/api/protected", OFF_BOX), "")),
        401
    );
}

#[test]
fn login_is_reachable_without_credentials() {
    let (mut host, cfg) = provisioned();
    assert_eq!(
        host.status_of(&cfg, request("/api/login", OFF_BOX)),
        200
    );
}

#[test]
fn only_the_exact_login_path_is_exempt() {
    let (mut host, cfg) = provisioned();
    for path in ["/api/login/", "/api/loginx", "/api/login/../protected"] {
        assert_eq!(
            host.status_of(&cfg, request(path, OFF_BOX)),
            401,
            "{path} must not inherit the /api/login exemption"
        );
    }
}

#[test]
fn login_rejects_the_wrong_password() {
    let (mut host, cfg) = provisioned();
    let res = host.do_login(&cfg, "hunter2");
    assert_eq!(res.status, 401);
    assert!(
        res.cookie.is_none(),
        "a failed login must not set a cookie"
    );
    assert!(
        host.sessions.live.is_empty(),
        "a failed login must not create a session"
    );
}

#[test]
fn login_accepts_the_right_password_and_issues_a_session() {
    let (mut host, cfg) = provisioned();
    let res = host.do_login(&cfg, PASSWORD);
    assert_eq!(res.status, 200);

    let sessions = &host.sessions.live;
    assert_eq!(
        sessions.len(),
        1,
        "exactly one session should have been created"
    );
    let (token, expiry) = &sessions[0];
    assert_eq!(token.len(), 64);
    assert!(token.chars().all(|c| c.is_ascii_alphanumeric()));
    assert!(
        *expiry > now_secs(),
        "a freshly issued session must not be pre-expired"
    );
}

#[test]
fn login_marks_the_cookie_http_only_secure_and_same_site_strict() {
    let (mut host, cfg) = provisioned();
    let res = host.do_login(&cfg, PASSWORD);
    let cookie = res.cookie.expect("login should set a cookie");
    assert!(cookie.http_only, "got: {cookie:?}");
    assert!(cookie.secure, "got: {cookie:?}");
    assert!(cookie.same_site_strict, "got: {cookie:?}");
    assert_eq!(cookie.path, "/");
}

#[test]
fn login_issues_a_different_token_every_time() {
    let (mut host, cfg) = provisioned();
    host.do_login(&cfg, PASSWORD);
    host.do_login(&cfg, PASSWORD);
    assert_eq!(
        host.sessions.live.len(),
        2,
        "session tokens must not collide between logins"
    );
}

#[test]
fn login_currently_mints_a_session_when_no_password_is_configured() {
    let (mut host, cfg) = unprovisioned();
    let res = host.do_login(&cfg, "any password at all");
    assert_eq!(res.status, 200);
    assert_eq!(host.sessions.live.len(), 1);
}

#[test]
fn logout_drops_the_session_and_clears_the_cookie() {
    let (mut host, cfg) = provisioned();
    host.do_login(&cfg, PASSWORD);
    let token = host.sessions.live[0].0.clone();

    let res = host.drive(|s| logout(s, &Some(token.clone())));

    assert_eq!(res.status, 200);
    assert!(
        host.sessions.expiry_of(&token).is_none(),
        "the token must be revoked server-side, not just cleared in the browser"
    );
    let cookie = res.cookie.expect("logout should clear the cookie");
    assert_eq!(cookie.max_age_secs, 0);
}

#[test]
fn logout_without_a_cookie_is_harmless() {
    let (mut host, cfg) = provisioned();
    host.do_login(&cfg, PASSWORD);

    let res = host.drive(|s| logout(s, &None));
    assert_eq!(res.status, 200);
    assert_eq!(
        host.sessions.live.len(),
        1,
        "a cookie-less logout must not revoke anyone else's session"
    );
}

#[test]
fn a_logged_out_token_no_longer_passes_the_middleware() {
    let (mut host, cfg) = provisioned();
    host.do_login(&cfg, PASSWORD);
    let token = host.sessions.live[0].0.clone();

    let req = with_session(request("/api/protected", OFF_BOX), &token);
    assert_eq!(host.status_of(&cfg, req), 200);

    host.drive(|s| logout(s, &Some(token.clone())));

    let req = with_session(request("/api/protected", OFF_BOX), &token);
    assert_eq!(
        host.status_of(&cfg, req),
        401
    );
}

#[test]
fn stored_sessions_merge_into_live_ones_without_resurrecting_logouts() {
    let mut live = vec![("new".to_string(), 200)];
    let stored = vec![
        ("old".to_string(), 100),
        ("new".to_string(), 50),
        ("logged-out".to_string(), 100),
    ];
    merge_loaded(&mut live, &stored, &vec!["logged-out".to_string()]);
    let of = |k: &str| live.iter().find(|(t, _)| t == k).map(|(_, e)| *e);
    assert_eq!(of("old"), Some(100));
    assert_eq!(of("new"), Some(200));
    assert!(of("logged-out").is_none());
}

#[test]
fn expired_sessions_are_dropped_on_load() {
    let s = vec![("a".to_string(), 10), ("b".to_string(), 1000)];
    let live = live_only(&s, 500);
    assert!(!live.iter().any(|(t, _)| t == "a"));
    assert!(live.iter().any(|(t, _)| t == "b"));
}

const SESSIONS: &str = "kubectl get secret yolab-sessions -n kube-system";

#[test]
fn sessions_are_read_back_from_the_cluster() {
    // {"old":1757003600,"gone":1}
    let stored = r#"{"data":{"sessions":"eyJvbGQiOjE3NTcwMDM2MDAsImdvbmUiOjF9"}}"#;
    let (host, cfg) = provisioned();
    let mut host = host.ok(SESSIONS, stored).ok("kubectl-apply", "");
    assert!(host.drive(|s| init_sessions(s, now_secs())), "{:?}", host.calls());
    assert_eq!(host.sessions.expiry_of("old"), Some(1_757_003_600), "{:?}", host.sessions);
    assert_eq!(host.sessions.expiry_of("gone"), None);
    host.do_login(&cfg, PASSWORD);
    assert!(host.ran("kubectl-apply"), "a session is saved once the stored ones are known");
}

#[test]
fn sessions_are_not_saved_before_the_stored_ones_are_known() {
    let (host, cfg) = provisioned();
    let mut host = host.fail(SESSIONS, "The connection to the server localhost:6443 was refused");
    assert!(!host.drive(|s| init_sessions(s, now_secs())));
    host.do_login(&cfg, PASSWORD);
    assert!(!host.ran("kubectl-apply"), "{:?}", host.calls());
    assert_eq!(next_delay(FIRST_DELAY_SECS), 4);
    assert_eq!(next_delay(LAST_DELAY_SECS), LAST_DELAY_SECS);
}

#[test]
fn the_answers_of_the_login_pages_are_fixed() {
    assert_eq!(check(), 200);
    assert_eq!(UNAUTHORIZED, 401);
    assert_eq!(OkResponse { ok: true }.text(), r#"{"ok":true}"#);
    let (mut host, cfg) = provisioned();
    assert_eq!(host.do_login(&cfg, "hunter2").body, WRONG_PASSWORD_BODY);
}
