//! The machine's own settings, the catalog, and what happens while it starts.

use std::collections::VecDeque;

use local_api::boot::banner::{self, format_banner, read_dns_url};
use local_api::boot::csi_recovery;
use local_api::boot::node_ip::{
    self, node_ip_line, parse_src_ip, DEFAULT_MAX_ATTEMPTS, DEFAULT_RETRY_DELAY_SECS,
};
use local_api::charts::{
    fetch_manifest, official_dir, valid_chart_name, valid_registry, valid_repo_name,
    valid_repo_url, CatalogEntry, CatalogManifest, ChartRepo, OFFICIAL,
};
use local_api::config::{default_flake_url, Channel, Config};
use local_api::effects::{Answer, Ask, Script};
use local_api::exec::CommandOutput;

struct FakeHost {
    calls: Vec<String>,
    script: Vec<(String, VecDeque<Result<String, String>>)>,
    files: Vec<(String, String)>,
}

impl FakeHost {
    fn new() -> Self {
        FakeHost { calls: Vec::new(), script: Vec::new(), files: Vec::new() }
    }

    fn push(&mut self, prefix: &str, answer: Result<String, String>) {
        match self.script.iter_mut().find(|(p, _)| p == prefix) {
            Some((_, q)) => q.push_back(answer),
            None => self.script.push((prefix.to_string(), VecDeque::from([answer]))),
        }
    }

    /// What a command answers; the last answer repeats.
    fn ok(mut self, prefix: &str, out: &str) -> Self {
        self.push(prefix, Ok(out.to_string()));
        self
    }

    fn fail(mut self, prefix: &str, err: &str) -> Self {
        self.push(prefix, Err(err.to_string()));
        self
    }

    /// The longest matching prefix wins.
    fn answer(&mut self, cmd: &str) -> Result<String, String> {
        self.calls.push(cmd.to_string());
        let best = self
            .script
            .iter_mut()
            .filter(|(p, _)| cmd.starts_with(p.as_str()))
            .max_by_key(|(p, _)| p.len());
        match best {
            Some((_, q)) if q.len() > 1 => q.pop_front().unwrap(),
            Some((_, q)) => q.front().unwrap().clone(),
            None => Err(format!("unscripted command: {cmd}")),
        }
    }

    fn calls(&self) -> Vec<String> {
        self.calls.clone()
    }

    fn ran(&self, needle: &str) -> bool {
        self.calls.iter().any(|c| c.contains(needle))
    }

    fn position(&self, needle: &str) -> Option<usize> {
        self.calls.iter().position(|c| c.contains(needle))
    }

    fn run(&mut self, bin: &str, args: &[String], input: &Option<String>) -> Answer {
        let cmd = match input {
            Some(text) => format!("{bin}-{} {text}", args[0]),
            None => format!("{bin} {}", args.join(" ")),
        };
        let (success, stdout, stderr) = match self.answer(&cmd) {
            Ok(out) => (true, out, String::new()),
            Err(err) => (false, String::new(), err),
        };
        Answer::Output(Ok(CommandOutput { success, stdout, stderr }))
    }

    fn perform(&mut self, ask: Ask) -> Answer {
        match ask {
            Ask::Run { bin, args, input, .. } => self.run(&bin, &args, &input),
            Ask::Sleep { .. } => Answer::Done,
            Ask::ReadText { path } => Answer::Text(self.file(&path)),
            Ask::LoadFile { path } => Answer::File(Ok(self.file(&path))),
            Ask::WriteFile { path, text } | Ask::ReplaceFile { path, text } => {
                self.put(&path, &text);
                Answer::Did(Ok(()))
            }
            Ask::RemoveFile { path } => {
                self.files.retain(|(p, _)| *p != path);
                Answer::Did(Ok(()))
            }
            Ask::EnsureDir { .. } => Answer::Did(Ok(())),
            other => panic!("nothing answers {other:?}"),
        }
    }

    fn file(&self, path: &str) -> Option<String> {
        self.files.iter().find(|(p, _)| p == path).map(|(_, t)| t.clone())
    }

    fn put(&mut self, path: &str, text: &str) {
        self.files.retain(|(p, _)| p != path);
        self.files.push((path.to_string(), text.to_string()));
    }

    /// With a file on the machine.
    fn with(mut self, path: &str, text: &str) -> Self {
        self.put(path, text);
        self
    }

    /// Runs a procedure, answering what it asks, until it is done.
    fn drive<T>(&mut self, f: impl Fn(&mut Script) -> Result<T, Ask>) -> T {
        let mut script = Script::new();
        loop {
            match f(&mut script) {
                Ok(done) => return done,
                Err(ask) => {
                    let answer = self.perform(ask);
                    script.answer(answer);
                }
            }
        }
    }
}

fn configured(body: &str) -> (FakeHost, Config) {
    (FakeHost::new().with("/etc/config.toml", body), Config::for_test("/etc/config.toml"))
}

fn channel_cfg() -> Config {
    let mut cfg = Config::for_test("/srv/config.toml");
    cfg.built_dir = "/srv/built".into();
    cfg.channel_file = "/srv/built/channel.json".into();
    cfg
}

#[test]
fn repo_names_are_constrained() {
    assert!(valid_repo_name("community"));
    assert!(valid_repo_name("my-charts-2"));
    assert!(!valid_repo_name(OFFICIAL));
    assert!(!valid_repo_name("../etc"));
    assert!(!valid_repo_name("a/b"));
    assert!(!valid_repo_name("UPPER"));
    assert!(!valid_repo_name(""));
}

#[test]
fn repo_urls_must_be_https() {
    assert!(valid_repo_url("https://charts.example.com/catalog.yaml"));
    assert!(!valid_repo_url("http://charts.example.com/catalog.yaml"));
    assert!(!valid_repo_url("file:///etc"));
    assert!(!valid_repo_url(""));
}

#[test]
fn registries_must_be_oci() {
    assert!(valid_registry("oci://ghcr.io/demycode/charts"));
    assert!(!valid_registry("https://ghcr.io/demycode/charts"));
    assert!(!valid_registry(""));
}

#[test]
fn chart_names_cannot_escape_the_cache() {
    assert!(valid_chart_name("filebrowser"));
    assert!(valid_chart_name("reactive-resume"));
    assert!(!valid_chart_name("../../etc/passwd"));
    assert!(!valid_chart_name("a/b"));
    assert!(!valid_chart_name("Upper"));
    assert!(!valid_chart_name(""));
}

fn entry(name: &str, version: &str) -> CatalogEntry {
    CatalogEntry { name: name.into(), version: version.into() }
}

/// What comes of a catalog whose page is `body`, when this is read from it. The whole
/// page is handed over to be read.
fn fetched(body: &str, read: Result<CatalogManifest, String>) -> Result<CatalogManifest, String> {
    let repo =
        ChartRepo { name: "mine".into(), url: "https://x/catalog.yaml".into(), removable: true };
    let mut s = Script::new();
    match fetch_manifest(&mut s, &repo) {
        Err(Ask::Fetch { url, secs }) => {
            assert_eq!((url.as_str(), secs), ("https://x/catalog.yaml", 30));
            s.answer(Answer::File(Ok(Some(body.into()))));
        }
        other => panic!("{other:?}"),
    }
    match fetch_manifest(&mut s, &repo) {
        Err(Ask::ReadManifest { text }) => {
            assert_eq!(text, body);
            s.answer(Answer::Manifest(read));
        }
        other => panic!("{other:?}"),
    }
    fetch_manifest(&mut s, &repo).unwrap().map_err(|e| e.chain())
}

#[test]
fn manifest_parses_the_published_shape() {
    let m = fetched(
        "apiVersion: yolab.io/v1\n\
         registry: oci://ghcr.io/demycode/charts\n\
         charts:\n\
         \x20 - name: filebrowser\n\
         \x20   version: \"0.1.0\"\n\
         \x20 - name: gitea\n\
         \x20   version: \"0.2.1\"\n",
        Ok(CatalogManifest {
            registry: "oci://ghcr.io/demycode/charts".into(),
            library: None,
            charts: vec![entry("filebrowser", "0.1.0"), entry("gitea", "0.2.1")],
        }),
    )
    .unwrap();
    assert_eq!(m.registry, "oci://ghcr.io/demycode/charts");
    assert_eq!(m.charts.len(), 2);
    assert_eq!(
        (m.charts[0].name.as_str(), m.charts[0].version.as_str()),
        ("filebrowser", "0.1.0")
    );
    assert_eq!(m.charts[1].version, "0.2.1");
}

#[test]
fn manifest_without_charts_is_valid_and_empty() {
    let m = fetched(
        "registry: oci://ghcr.io/x/charts\n",
        Ok(CatalogManifest {
            registry: "oci://ghcr.io/x/charts".into(),
            library: None,
            charts: Vec::new(),
        }),
    )
    .unwrap();
    assert!(m.charts.is_empty());
    assert!(m.library.is_none());
}

#[test]
fn manifest_reads_the_library_when_it_declares_one() {
    let m = fetched(
        "registry: oci://ghcr.io/demycode/charts\n\
         library:\n\
         \x20 name: yolab-common\n\
         \x20 version: \"0.1.1\"\n\
         charts:\n\
         \x20 - name: gitea\n\
         \x20   version: \"0.1.1\"\n",
        Ok(CatalogManifest {
            registry: "oci://ghcr.io/demycode/charts".into(),
            library: Some(entry("yolab-common", "0.1.1")),
            charts: vec![entry("gitea", "0.1.1")],
        }),
    )
    .unwrap();
    assert_eq!(
        m.library.as_ref().map(|l| (l.name.as_str(), l.version.as_str())),
        Some(("yolab-common", "0.1.1"))
    );
    assert_eq!(m.charts.len(), 1);
}

#[test]
fn a_catalog_that_is_not_valid_is_refused() {
    assert_eq!(
        fetched("registry: [", Err("did not find expected node content".into())).unwrap_err(),
        "mine: catalog manifest is not valid: did not find expected node content"
    );
    let elsewhere =
        CatalogManifest { registry: "https://r".into(), library: None, charts: Vec::new() };
    assert_eq!(
        fetched("registry: https://r\n", Ok(elsewhere)).unwrap_err(),
        "mine: registry must be an oci:// reference"
    );
}

#[test]
fn cluster_token_reads_the_account_token() {
    let (mut host, cfg) = configured("[tunnel]\naccount_token = \"tok-abc123\"\n");
    assert_eq!(host.drive(|s| cfg.cluster_token(s)), "tok-abc123");
}

#[test]
fn cluster_token_is_empty_when_it_cannot_be_read() {
    let mut host = FakeHost::new();
    let missing = Config::for_test("/nonexistent/config.toml");
    assert_eq!(host.drive(|s| missing.cluster_token(s)), "");

    let (mut host, no_section) = configured("[homelab]\nhostname = \"yolab\"\n");
    assert_eq!(host.drive(|s| no_section.cluster_token(s)), "");

    let (mut host, no_key) = configured("[tunnel]\nenabled = true\n");
    assert_eq!(host.drive(|s| no_key.cluster_token(s)), "");

    let (mut host, wrong_type) = configured("[tunnel]\naccount_token = 42\n");
    assert_eq!(host.drive(|s| wrong_type.cluster_token(s)), "");

    let (mut host, not_toml) = configured("this is not valid toml {{{");
    assert_eq!(host.drive(|s| not_toml.cluster_token(s)), "");
}

#[test]
fn catalog_dir_is_the_synced_official_cache() {
    let cfg = Config::for_test("/tmp/config.toml");
    assert_eq!(cfg.catalog_dir(), official_dir());
}

#[test]
fn a_channel_composes_the_flake_from_url_and_ref() {
    let ch = Channel {
        url: "github:DemyCode/yolab".into(),
        ref_: "main".into(),
    };
    assert_eq!(ch.flake(), "github:DemyCode/yolab/main");
    let ch = Channel {
        url: "github:DemyCode/yolab/".into(),
        ref_: "v2.1.0".into(),
    };
    assert_eq!(ch.flake(), "github:DemyCode/yolab/v2.1.0");
}

#[test]
fn a_channel_without_a_ref_uses_the_url_alone() {
    let ch = Channel {
        url: "github:DemyCode/yolab/main".into(),
        ref_: "".into(),
    };
    assert_eq!(ch.flake(), "github:DemyCode/yolab/main");
}

#[test]
fn an_absent_channel_file_reads_as_the_default_source() {
    let mut host = FakeHost::new();
    let ch = host.drive(|s| channel_cfg().channel(s, &default_flake_url(None)));
    assert_eq!(ch.url, default_flake_url(None));
    assert_eq!(ch.ref_, "main");
}

#[test]
fn a_written_channel_reads_back_unchanged() {
    let mut host = FakeHost::new();
    let cfg = channel_cfg();
    let written = Channel {
        url: "github:someone/fork".into(),
        ref_: "v2.1.0".into(),
    };
    host.drive(|s| cfg.write_channel(s, &written)).unwrap();
    let read = host.drive(|s| cfg.channel(s, &default_flake_url(None)));
    assert_eq!((read.url, read.ref_), (written.url, written.ref_));
    assert_eq!(host.drive(|s| cfg.flake_ref(s, &default_flake_url(None))), "github:someone/fork/v2.1.0");
}

#[test]
fn a_malformed_channel_file_falls_back_completely() {
    let mut host = FakeHost::new();
    let cfg = channel_cfg();
    for body in [
        "",
        "not json at all",
        r#"{"url": "github:o/r"}"#,
        r#"{"ref": "v2"}"#,
        r#"{"url": 5, "ref": "v2"}"#,
        r#"{"url": "", "ref": "v2"}"#,
        r#"{"url": "github:o/r", "ref": 5}"#,
        r#"{"url": "github:o/r", "ref": ""}"#,
        "[]",
    ] {
        host.put(&cfg.channel_file, body);
        let ch = host.drive(|s| cfg.channel(s, &default_flake_url(None)));
        if body == r#"{"ref": "v2"}"# {
            assert_eq!(
                (ch.url.as_str(), ch.ref_.as_str()),
                (default_flake_url(None).as_str(), "v2"),
                "body: {body}"
            );
            continue;
        }
        assert_eq!(
            (ch.url.as_str(), ch.ref_.as_str()),
            (default_flake_url(None).as_str(), "main"),
            "body: {body}"
        );
    }
}

#[test]
fn reads_the_configured_dns_url() {
    let mut host = FakeHost::new().with("/etc/config.toml", "[tunnel]\ndns_url = \"https://example.yolab.dev\"\n");
    assert_eq!(
        host.drive(|s| read_dns_url(s, "/etc/config.toml")).as_deref(),
        Some("https://example.yolab.dev")
    );
}

#[test]
fn is_none_when_unconfigured_missing_or_malformed() {
    let mut host = FakeHost::new();
    assert_eq!(host.drive(|s| read_dns_url(s, "/nonexistent/config.toml")), None);
    let mut host = FakeHost::new().with("/etc/config.toml", "[homelab]\nhostname = \"x\"\n");
    assert_eq!(host.drive(|s| read_dns_url(s, "/etc/config.toml")), None);
    let mut host = FakeHost::new().with("/etc/config.toml", "not valid toml {{{");
    assert_eq!(host.drive(|s| read_dns_url(s, "/etc/config.toml")), None);
}

#[test]
fn format_banner_shows_not_configured_without_a_url() {
    let out = format_banner(None, None);
    assert!(out.contains("not yet configured"));
}

#[test]
fn format_banner_shows_the_url_and_qr_art_when_configured() {
    let out = format_banner(Some("https://example.yolab.dev"), Some("[qr art]"));
    assert!(out.contains("[qr art]"));
    assert!(out.contains("YoLab Management: https://example.yolab.dev"));
}

#[test]
fn format_banner_still_shows_the_url_if_qrencode_failed() {
    let out = format_banner(Some("https://example.yolab.dev"), None);
    assert!(out.contains("YoLab Management: https://example.yolab.dev"));
}

#[test]
fn writes_the_url_and_qr_art_when_configured() {
    let mut host = FakeHost::new().with("/etc/config.toml", "[tunnel]\ndns_url = \"https://example.yolab.dev\"\n");
    let mut host = host.ok(
        "qrencode -t UTF8 -m 1 https://example.yolab.dev",
        "[qr art]",
    );
    let issue_path = "/etc/issue";

    host.drive(|s| banner::run(s, "/etc/config.toml", issue_path)).unwrap();

    let content = host.file(issue_path).unwrap();
    assert!(content.contains("[qr art]"));
    assert!(content.contains("YoLab Management: https://example.yolab.dev"));
}

#[test]
fn writes_not_configured_when_config_is_missing() {
    let mut host = FakeHost::new();
    let issue_path = "/etc/issue";

    host.drive(|s| banner::run(s, "/nonexistent/config.toml", issue_path))
        .unwrap();

    let content = host.file(issue_path).unwrap();
    assert!(content.contains("not yet configured"));
    assert!(
        host.calls().is_empty(),
        "qrencode must not run without a URL"
    );
}

#[test]
fn deletes_this_nodes_plugin_pod_once_the_daemonset_exists() {
    let mut host = FakeHost::new()
        .ok("kubectl get daemonset csi-cephfsplugin -n rook-ceph", "")
        .ok("kubectl delete pod", "");
    host.drive(|s| csi_recovery::run(s, "node1")).unwrap();
    assert!(host.ran("kubectl delete pod -n rook-ceph -l app=csi-cephfsplugin"));
}

#[test]
fn gives_up_when_the_daemonset_never_appears() {
    let mut host = FakeHost::new().fail(
        "kubectl get daemonset csi-cephfsplugin -n rook-ceph",
        "not found",
    );
    let err = host.drive(|s| csi_recovery::run(s, "node1")).unwrap_err();
    assert!(err.chain().contains("never appeared"));
    assert!(!host.ran("kubectl delete pod"));
}

#[test]
fn parse_src_ip_reads_the_field_after_src() {
    assert_eq!(
        parse_src_ip("1.1.1.1 via 10.0.0.1 dev eth0 src 10.0.0.42 uid 0"),
        Some("10.0.0.42".to_string())
    );
}

#[test]
fn parse_src_ip_is_none_without_a_route() {
    assert_eq!(parse_src_ip(""), None);
    assert_eq!(
        parse_src_ip("RTNETLINK answers: Network is unreachable"),
        None
    );
}

#[test]
fn node_ip_line_is_always_dual_stack() {
    assert_eq!(
        node_ip_line("fd00:cafe::1", "10.0.0.42"),
        "node-ip: fd00:cafe::1,10.0.0.42\n"
    );
}

#[test]
fn writes_a_dual_stack_config_when_ipv4_is_reachable_immediately() {
    let mut host = FakeHost::new().ok(
        "ip -4 route get 1.1.1.1",
        "1.1.1.1 via 10.0.0.1 dev eth0 src 10.0.0.42 uid 0",
    );

    host.drive(|s| node_ip::run(s, "fd00:cafe::1", "/", DEFAULT_MAX_ATTEMPTS, DEFAULT_RETRY_DELAY_SECS)).unwrap();

    let content = host.file("/etc/rancher/k3s/config.yaml").unwrap();
    assert_eq!(content, "node-ip: fd00:cafe::1,10.0.0.42\n");
}

#[test]
fn retries_past_a_transient_boot_time_race_and_still_writes_dual_stack() {
    let mut host = FakeHost::new()
        .fail("ip -4 route get 1.1.1.1", "Network is unreachable")
        .fail("ip -4 route get 1.1.1.1", "Network is unreachable")
        .ok(
            "ip -4 route get 1.1.1.1",
            "1.1.1.1 via 10.0.0.1 dev eth0 src 10.0.0.42 uid 0",
        );

    host.drive(|s| node_ip::run(s, "fd00:cafe::1", "/", DEFAULT_MAX_ATTEMPTS, DEFAULT_RETRY_DELAY_SECS)).unwrap();

    let content = host.file("/etc/rancher/k3s/config.yaml").unwrap();
    assert_eq!(content, "node-ip: fd00:cafe::1,10.0.0.42\n");
}

#[test]
fn never_writes_an_ipv6_only_config_that_would_crash_loop_k3s() {
    let mut host = FakeHost::new().fail("ip -4 route get 1.1.1.1", "Network is unreachable");

    let err = host.drive(|s| node_ip::run(s, "fd00:cafe::1", "/", DEFAULT_MAX_ATTEMPTS, DEFAULT_RETRY_DELAY_SECS)).unwrap_err();

    assert!(err.chain().contains("dual-stack cluster-cidr"));
    assert!(host.file("/etc/rancher/k3s/config.yaml").is_none());
}

#[test]
fn gives_up_after_the_max_attempts_not_forever() {
    let mut host = FakeHost::new().fail("ip -4 route get 1.1.1.1", "Network is unreachable");

    host.drive(|s| node_ip::run(s, "fd00:cafe::1", "/", DEFAULT_MAX_ATTEMPTS, DEFAULT_RETRY_DELAY_SECS)).unwrap_err();

    let attempts = host
        .calls()
        .iter()
        .filter(|c| c.starts_with("ip -4 route get 1.1.1.1"))
        .count();
    assert_eq!(attempts, DEFAULT_MAX_ATTEMPTS as usize);
}

#[test]
fn a_dead_default_route_is_treated_the_same_as_no_route() {
    let mut host = FakeHost::new().ok(
        "ip -4 route get 1.1.1.1",
        "RTNETLINK answers: Network is unreachable",
    );

    let err = host.drive(|s| node_ip::run(s, "fd00:cafe::1", "/", DEFAULT_MAX_ATTEMPTS, DEFAULT_RETRY_DELAY_SECS)).unwrap_err();

    assert!(err.chain().contains("no IPv4 route"));
}
