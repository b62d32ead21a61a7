//! The answers that are remembered between requests.

use local_api::cache::{
    frame, judge, middleware, policy_for, Body, Cache, Handled, HandlerReply, PageRequest, Policy,
    Served, MAX_CACHEABLE_BYTES, MAX_ENTRIES,
};
use local_api::effects::{Answer, Ask, Script};
use local_api::json::{parse, render, Json};
use local_api::time::{Duration, Instant};

const PAGE: &str = "/api/ceph/detail";

/// A machine with one page, whose handler counts how often it runs.
struct Site {
    cache: Cache,
    now: Instant,
    calls: usize,
    sent: Vec<String>,
    reply: Option<(u16, &'static str)>,
}

impl Site {
    fn new() -> Self {
        Site {
            cache: Cache::new(),
            now: Instant { nanos: 0 },
            calls: 0,
            sent: Vec::new(),
            reply: None,
        }
    }

    fn advance(&mut self, secs: u64) {
        self.now = self.now.after(Duration::from_secs(secs));
    }

    fn run_handler(&mut self) -> HandlerReply {
        match self.reply {
            Some((status, body)) => HandlerReply {
                status,
                content_type: Some("text/plain".into()),
                body: Some(body.into()),
            },
            None => {
                self.calls += 1;
                HandlerReply {
                    status: 200,
                    content_type: Some("application/json".into()),
                    body: Some(format!(r#"{{"n":{}}}"#, self.calls)),
                }
            }
        }
    }

    fn perform(&mut self, ask: Ask) -> Answer {
        match ask {
            Ask::Cached { key, policy } => {
                Answer::Cached(self.cache.look_up(&key, policy, self.now))
            }
            Ask::KeepCached { key, kept } => {
                self.cache.store(&key, kept, self.now);
                Answer::Done
            }
            Ask::ClearCache => {
                self.cache.invalidate_all();
                Answer::Done
            }
            Ask::HoldFlight { .. } => Answer::Done,
            Ask::RunHandler => Answer::Handled(self.run_handler()),
            Ask::Emit { text } => {
                self.sent.push(text);
                Answer::Done
            }
            other => panic!("nothing answers {other:?}"),
        }
    }

    fn oneshot(&mut self, req: &PageRequest) -> Served {
        let mut script = Script::new();
        loop {
            match middleware(&mut script, req) {
                Ok(served) => return served,
                Err(ask) => {
                    let answer = self.perform(ask);
                    script.answer(answer);
                }
            }
        }
    }
}

fn req(progressive: bool) -> PageRequest {
    PageRequest {
        get: true,
        path: PAGE.into(),
        key: PAGE.into(),
        progressive: progressive.then_some("1".to_string()),
    }
}

fn write() -> PageRequest {
    let path = "/api/ceph/osd/3/mark-out";
    PageRequest { get: false, path: path.into(), key: path.into(), progressive: None }
}

/// The one document of an answer, with what its headers say.
fn single(served: Served) -> (String, String, u64) {
    match served {
        Served::Json { body, state, age_ms, .. } => (render(&body.0), state, age_ms),
        other => panic!("expected one document, got {other:?}"),
    }
}

fn line(text: &str) -> (String, i64, i64) {
    assert!(text.ends_with('\n'), "{text:?}");
    let j = parse(text).unwrap();
    let n = j.get("data").unwrap().i64_at("n").unwrap();
    (j.str_at("cache").unwrap().to_string(), n, j.i64_at("ageMs").unwrap())
}

#[test]
fn a_plain_client_still_gets_one_ordinary_json_body() {
    let mut site = Site::new();
    let (body, state, _) = single(site.oneshot(&req(false)));
    assert_eq!(state, "miss");
    assert_eq!(body, r#"{"n":1}"#);

    let (body, state, age) = single(site.oneshot(&req(false)));
    assert_eq!(state, "hit");
    assert_eq!(age, 0);
    assert_eq!(body, r#"{"n":1}"#);
    assert_eq!(site.calls, 1, "the hit must not recompute");
}

#[test]
fn a_progressive_client_gets_the_cached_frame_then_the_real_one() {
    let mut site = Site::new();
    site.oneshot(&req(false));
    site.advance(16);

    let res = site.oneshot(&req(true));
    assert!(matches!(&res, Served::Streamed { state } if state == "stale"), "{res:?}");
    assert_eq!(site.sent.len(), 2, "expected exactly two frames");
    assert_eq!(line(&site.sent[0]), ("stale".to_string(), 1, 16000));
    assert_eq!(line(&site.sent[1]), ("fresh".to_string(), 2, 0));

    let (body, _, _) = single(site.oneshot(&req(false)));
    assert_eq!(body, r#"{"n":2}"#);
}

#[test]
fn a_plain_client_inside_the_ttl_skips_the_handler() {
    let mut site = Site::new();
    site.oneshot(&req(false));
    let (_, state, _) = single(site.oneshot(&req(false)));
    assert_eq!(state, "hit");
    assert_eq!(
        site.calls, 1,
        "a plain client has no second frame to correct a stale body with, so \
         inside the TTL the cached one is the whole answer"
    );
}

#[test]
fn a_progressive_client_recomputes_even_when_the_cache_is_fresh() {
    let mut site = Site::new();
    site.oneshot(&req(false));
    let res = site.oneshot(&req(true));
    assert!(matches!(&res, Served::Streamed { state } if state == "hit"), "frame one is recent");

    assert_eq!(site.sent.len(), 2, "the real value must still follow");
    assert_eq!(line(&site.sent[0]).0, "hit");
    assert_eq!(line(&site.sent[0]).1, 1);
    assert_eq!(line(&site.sent[1]).0, "fresh");
    assert_eq!(line(&site.sent[1]).1, 2, "the handler ran anyway");
    assert_eq!(site.calls, 2);
}

#[test]
fn a_body_past_the_hard_limit_is_never_served() {
    let mut site = Site::new();
    site.oneshot(&req(false));
    site.advance(61);

    match site.oneshot(&req(true)) {
        Served::Lines { text, state } => {
            assert_eq!(state, "miss");
            assert_eq!(text.lines().count(), 1, "there must be no stale frame to send");
            assert_eq!(line(&text).0, "miss");
            assert_eq!(line(&text).1, 2);
        }
        other => panic!("expected one line, got {other:?}"),
    }
}

#[test]
fn a_mutation_that_invalidates_is_not_masked_by_the_ttl() {
    let mut site = Site::new();
    site.oneshot(&req(false));
    site.cache.invalidate_all();

    let (body, state, _) = single(site.oneshot(&req(false)));
    assert_eq!(state, "miss");
    assert_eq!(body, r#"{"n":2}"#);
}

#[test]
fn a_denied_path_passes_straight_through() {
    let mut site = Site::new();
    let denied = PageRequest {
        path: "/api/auth/check".into(),
        key: "/api/auth/check".into(),
        ..req(true)
    };
    let res = site.oneshot(&denied);
    assert!(matches!(res, Served::Handler), "an uncached route must not look cached");
    assert!(site.cache.entries.is_empty());
}

#[test]
fn an_error_response_is_never_cached() {
    let mut site = Site::new();
    site.reply = Some((500, "ceph is unreachable"));
    assert!(matches!(site.oneshot(&req(false)), Served::Handler));
    assert!(site.cache.look_up(PAGE, Policy::secs(15, 60), site.now).is_none());
}

#[test]
fn a_successful_write_on_an_unrelated_route_clears_the_cache() {
    let mut site = Site::new();
    site.oneshot(&req(false));
    let (_, state, _) = single(site.oneshot(&req(false)));
    assert_eq!(state, "hit", "cached before the write");

    site.reply = Some((200, "ok"));
    assert!(matches!(site.oneshot(&write()), Served::Handler));
    site.reply = None;

    let (body, state, _) = single(site.oneshot(&req(false)));
    assert_eq!(state, "miss", "the write must not be masked by a cached read");
    assert_eq!(body, r#"{"n":2}"#);
}

#[test]
fn a_failed_write_leaves_the_cache_alone() {
    let mut site = Site::new();
    site.oneshot(&req(false));
    site.reply = Some((409, "another drain is already running"));
    site.oneshot(&write());
    site.reply = None;

    let (body, state, _) = single(site.oneshot(&req(false)));
    assert_eq!(state, "hit");
    assert_eq!(body, r#"{"n":1}"#);
}

#[test]
fn no_more_is_remembered_than_there_is_room_for() {
    let mut cache = Cache::new();
    for i in 0..MAX_ENTRIES + 20 {
        let now = Instant { nanos: i as u128 };
        cache.store(&format!("/api/x/{i}"), Body(Json::Null), now);
    }
    assert!(cache.entries.len() <= MAX_ENTRIES);
    let last = format!("/api/x/{}", MAX_ENTRIES + 19);
    let now = Instant { nanos: 1_000 };
    assert!(cache.look_up(&last, Policy::secs(15, 60), now).is_some());
}

#[test]
fn an_answer_is_judged_by_its_status_its_kind_and_its_size() {
    let reply = |status: u16, kind: Option<&str>, body: Option<String>| HandlerReply {
        status,
        content_type: kind.map(str::to_string),
        body,
    };
    let json = Some("application/json");
    let doc = || Some("{}".to_string());
    assert!(matches!(judge(&reply(200, json, doc())), Handled::Cacheable(_)));
    assert!(matches!(judge(&reply(404, json, doc())), Handled::PassThrough));
    assert!(matches!(judge(&reply(200, Some("text/html"), doc())), Handled::PassThrough));
    assert!(matches!(judge(&reply(200, None, doc())), Handled::PassThrough));
    assert!(matches!(judge(&reply(200, json, None)), Handled::TooLarge));
    assert!(MAX_CACHEABLE_BYTES > 1_000_000);
}

#[test]
fn a_line_says_how_old_it_is_and_how_long_it_lasts() {
    let body = Body(parse(r#"{"n":1}"#).unwrap());
    let text = frame(&body, "stale", Duration::from_millis(1500), Policy::secs(15, 60));
    let j = parse(&text).unwrap();
    assert_eq!(j.i64_at("ageMs"), Some(1500));
    assert_eq!(j.i64_at("ttlMs"), Some(15000));
    assert_eq!(j.str_at("cache"), Some("stale"));
}

#[test]
fn everything_is_cached_except_the_denylist() {
    for path in [
        "/api/ceph/detail",
        "/api/nodes/traffic",
        "/api/status",
        "/api/apps",
        "/api/apps/immich/pods",
        "/api/backups/snapshots",
    ] {
        assert!(policy_for(path).is_some(), "{path} should be cached");
    }

    assert!(policy_for("/api/auth/check").is_none());

    for path in [
        "/api/account/token",
        "/api/backups/recovery-key",
        "/api/ceph/dashboard",
        "/api/cluster/ceph-join",
        "/api/notifications",
    ] {
        assert!(policy_for(path).is_none(), "{path} is a secret");
    }

    assert!(policy_for("/api/heal").is_none());
    assert!(policy_for("/api/heal/peer").is_none());

    for path in [
        "/api/logs",
        "/api/rebuild-log",
        "/api/apps/immich/logs/immich-abc123",
    ] {
        assert!(policy_for(path).is_none(), "{path} is a log");
    }

    assert!(policy_for("/index.html").is_none());
    assert!(policy_for("/ceph-dashboard/").is_none());
}

#[test]
fn the_ttl_is_shorter_than_the_ui_poll_interval() {
    for path in ["/api/ceph/detail", "/api/cluster/health", "/api/disks"] {
        let p = policy_for(path).unwrap();
        assert!(
            p.ttl.shorter_than(Duration::from_secs(20)),
            "{path}: a TTL at or past the 20s poll means cycles that never refresh"
        );
        assert!(
            p.ttl.shorter_than(p.hard),
            "{path}: the hard limit must be past the TTL"
        );
    }
}
