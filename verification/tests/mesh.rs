//! The paths between the machines.

use std::collections::VecDeque;

use local_api::effects::{Answer, Ask, Script};
use local_api::exec::CommandOutput;
use local_api::ip;
use local_api::json::{parse, Json};
use local_api::mesh::candidates::{is_dialable, is_physical, parse_addrs, Candidates};
use local_api::mesh::discovery::{mesh_candidates, prime_caller};
use local_api::mesh::paths::{
    endpoint_host, is_blackholed, parse_peer_addresses, path_statuses, probe_address, real_address,
    reconcile_local, Traffic, BLACKHOLE_SECS, HANDSHAKE_MAX_AGE_SECS,
};
use local_api::mesh::wg::{parse_dump, Peer};

struct FakeHost {
    calls: Vec<String>,
    script: Vec<(String, VecDeque<Result<String, String>>)>,
    files: Vec<(String, String)>,
}

impl FakeHost {
    fn new() -> Self {
        FakeHost { calls: Vec::new(), script: Vec::new(), files: Vec::new() }
    }

    fn push(&mut self, prefix: &str, answer: Result<String, String>) {
        match self.script.iter_mut().find(|(p, _)| p == prefix) {
            Some((_, q)) => q.push_back(answer),
            None => self.script.push((prefix.to_string(), VecDeque::from([answer]))),
        }
    }

    /// What a command answers; the last answer repeats.
    fn ok(mut self, prefix: &str, out: &str) -> Self {
        self.push(prefix, Ok(out.to_string()));
        self
    }

    fn fail(mut self, prefix: &str, err: &str) -> Self {
        self.push(prefix, Err(err.to_string()));
        self
    }

    /// The longest matching prefix wins.
    fn answer(&mut self, cmd: &str) -> Result<String, String> {
        self.calls.push(cmd.to_string());
        let best = self
            .script
            .iter_mut()
            .filter(|(p, _)| cmd.starts_with(p.as_str()))
            .max_by_key(|(p, _)| p.len());
        match best {
            Some((_, q)) if q.len() > 1 => q.pop_front().unwrap(),
            Some((_, q)) => q.front().unwrap().clone(),
            None => Err(format!("unscripted command: {cmd}")),
        }
    }

    fn calls(&self) -> Vec<String> {
        self.calls.clone()
    }

    fn ran(&self, needle: &str) -> bool {
        self.calls.iter().any(|c| c.contains(needle))
    }

    fn position(&self, needle: &str) -> Option<usize> {
        self.calls.iter().position(|c| c.contains(needle))
    }

    fn run(&mut self, bin: &str, args: &[String], input: &Option<String>) -> Answer {
        let cmd = match input {
            Some(text) => format!("{bin}-{} {text}", args[0]),
            None => format!("{bin} {}", args.join(" ")),
        };
        let (success, stdout, stderr) = match self.answer(&cmd) {
            Ok(out) => (true, out, String::new()),
            Err(err) => (false, String::new(), err),
        };
        Answer::Output(Ok(CommandOutput { success, stdout, stderr }))
    }

    fn perform(&mut self, ask: Ask) -> Answer {
        match ask {
            Ask::Run { bin, args, input, .. } => self.run(&bin, &args, &input),
            Ask::Sleep { .. } => Answer::Done,
            Ask::ReadText { path } => Answer::Text(self.file(&path)),
            Ask::LoadFile { path } => Answer::File(Ok(self.file(&path))),
            Ask::WriteFile { path, text } | Ask::ReplaceFile { path, text } => {
                self.put(&path, &text);
                Answer::Did(Ok(()))
            }
            Ask::RemoveFile { path } => {
                self.files.retain(|(p, _)| *p != path);
                Answer::Did(Ok(()))
            }
            Ask::EnsureDir { .. } => Answer::Did(Ok(())),
            other => panic!("nothing answers {other:?}"),
        }
    }

    fn file(&self, path: &str) -> Option<String> {
        self.files.iter().find(|(p, _)| p == path).map(|(_, t)| t.clone())
    }

    fn put(&mut self, path: &str, text: &str) {
        self.files.retain(|(p, _)| p != path);
        self.files.push((path.to_string(), text.to_string()));
    }

    /// With a file on the machine.
    fn with(mut self, path: &str, text: &str) -> Self {
        self.put(path, text);
        self
    }

    /// Runs a procedure, answering what it asks, until it is done.
    fn drive<T>(&mut self, f: impl Fn(&mut Script) -> Result<T, Ask>) -> T {
        let mut script = Script::new();
        loop {
            match f(&mut script) {
                Ok(done) => return done,
                Err(ask) => {
                    let answer = self.perform(ask);
                    script.answer(answer);
                }
            }
        }
    }
}

fn now_secs() -> u64 {
    1_757_000_500
}

const DUMP: &str = "PRIVKEYAAA=\tPUBSELF=\t51821\toff\n\
    HUBKEY=\t(none)\t203.0.113.9:51820\tfd00:cafe::/112\t1757000000\t100\t200\t25\n\
    PEERKEY=\t(none)\t192.168.1.50:51821\tfd00:cafe::6/128\t1757000100\t5\t6\t25\n";

const IP_JSON: &str = r#"[
  {"ifname":"lo","addr_info":[{"local":"127.0.0.1","scope":"host"}]},
  {"ifname":"enp0s31f6","addr_info":[
     {"local":"192.168.1.50","scope":"global"},
     {"local":"2a01:e0a:1::42","scope":"global"},
     {"local":"fe80::1","scope":"link"}]},
  {"ifname":"wg1","addr_info":[{"local":"fd00:cafe::5","scope":"global"}]},
  {"ifname":"wg0","addr_info":[{"local":"2a01:4f8:1c1e:43ff::5","scope":"global"}]},
  {"ifname":"docker0","addr_info":[{"local":"172.17.0.1","scope":"global"}]},
  {"ifname":"flannel.1","addr_info":[{"local":"10.42.0.0","scope":"global"}]},
  {"ifname":"cni0","addr_info":[{"local":"10.42.0.1","scope":"global"}]}
]"#;

const HUB: &str = "HUBKEY=";
const PEER: &str = "PEERKEY=";

fn peer_line(key: &str, endpoint: &str, allowed: &str, hs: u64, rx: u64, tx: u64) -> String {
    format!("{key}\t(none)\t{endpoint}\t{allowed}\t{hs}\t{rx}\t{tx}\t25\n")
}

fn dump_of(lines: &[String]) -> String {
    format!("PRIV=\tPUBSELF=\t51821\toff\n{}", lines.concat())
}

fn hub_line() -> String {
    peer_line(HUB, "78.47.104.10:51820", "fd00:cafe::/112", 1_000, 9, 9)
}

fn host_with(dump: &str) -> FakeHost {
    FakeHost::new()
        .ok("wg show wg1 dump", dump)
        .ok(
            "ip -6 route get",
            "fd00:cafe::6 dev enp5s0 src fd00:cafe::5",
        )
        .ok("ip route get", "192.168.1.141 dev enp5s0 src 192.168.1.132")
        .ok("wg set", "")
}

fn peer(rx: u64, tx: u64) -> Peer {
    Peer {
        public_key: PEER.into(),
        endpoint: Some("192.168.1.141:51821".into()),
        allowed_ips: vec!["fd00:cafe::6/128".into()],
        last_handshake: 1_000,
        rx_bytes: rx,
        tx_bytes: tx,
    }
}

fn node(ip: &str) -> Json {
    parse(&format!(
        r#"{{"status":{{"addresses":[
        {{"type":"Hostname","address":"whatever"}},
        {{"type":"InternalIP","address":"{ip}"}}]}}}}"#
    ))
    .unwrap()
}

#[test]
fn skips_the_interface_line_so_the_private_key_is_never_a_peer() {
    let peers = parse_dump(DUMP);
    assert_eq!(peers.len(), 2);
    assert!(peers.iter().all(|p| p.public_key != "PRIVKEYAAA="));
}

#[test]
fn parses_endpoint_allowed_ips_and_handshake() {
    let peers = parse_dump(DUMP);
    let hub = &peers[0];
    assert_eq!(hub.public_key, "HUBKEY=");
    assert_eq!(hub.endpoint.as_deref(), Some("203.0.113.9:51820"));
    assert_eq!(hub.allowed_ips, vec!["fd00:cafe::/112"]);
    assert_eq!(hub.last_handshake, 1_757_000_000);
}

#[test]
fn a_peer_with_no_endpoint_reads_as_none_not_the_literal_string() {
    let peers = parse_dump("iface\nK=\t(none)\t(none)\t(none)\t0\t0\t0\toff\n");
    assert_eq!(peers[0].endpoint, None);
    assert!(peers[0].allowed_ips.is_empty());
    assert_eq!(peers[0].last_handshake, 0);
}

#[test]
fn never_handshaked_is_not_alive_however_generous_the_window() {
    let p = Peer {
        public_key: "K=".into(),
        endpoint: None,
        allowed_ips: vec![],
        last_handshake: 0,
        rx_bytes: 0,
        tx_bytes: 0,
    };
    assert!(!p.is_alive(1_757_000_000, u64::MAX));
}

#[test]
fn liveness_is_bounded_by_the_window() {
    let p = Peer {
        public_key: "K=".into(),
        endpoint: None,
        allowed_ips: vec![],
        last_handshake: 1_000,
        rx_bytes: 0,
        tx_bytes: 0,
    };
    assert!(p.is_alive(1_100, 180));
    assert!(!p.is_alive(1_300, 180));
}

#[test]
fn a_clock_that_went_backwards_does_not_read_as_wildly_alive() {
    let p = Peer {
        public_key: "K=".into(),
        endpoint: None,
        allowed_ips: vec![],
        last_handshake: 2_000,
        rx_bytes: 0,
        tx_bytes: 0,
    };
    // saturating_sub, so this is 0 elapsed rather than a huge wrap-around.
    assert!(p.is_alive(1_000, 180));
}

#[test]
fn keeps_only_addresses_on_physical_interfaces() {
    let addrs = parse_addrs(IP_JSON).unwrap();
    assert_eq!(addrs, vec!["192.168.1.50", "2a01:e0a:1::42"]);
}

#[test]
fn never_offers_the_mesh_address_which_is_reachable_only_via_the_relay() {
    let addrs = parse_addrs(IP_JSON).unwrap();
    assert!(!addrs.iter().any(|a| a.starts_with("fd00:cafe")));
    assert!(!addrs.iter().any(|a| a.starts_with("2a01:4f8")));
}

#[test]
fn never_offers_a_container_bridge_that_exists_identically_on_every_node() {
    let addrs = parse_addrs(IP_JSON).unwrap();
    for bad in ["172.17.0.1", "10.42.0.0", "10.42.0.1"] {
        assert!(!addrs.contains(&bad.to_string()), "offered {bad}");
    }
}

#[test]
fn drops_link_local_which_cannot_be_dialed_without_a_scope() {
    assert!(!is_dialable("fe80::1"));
    assert!(!is_dialable("169.254.10.1"));
    assert!(is_dialable("192.168.1.50"));
}

#[test]
fn a_real_interface_named_like_a_virtual_one_is_still_excluded() {
    // Conservative on purpose: excluding a usable path costs a relayed
    // connection, including an unusable one costs a blackhole.
    assert!(!is_physical("wgtest0"));
    assert!(is_physical("eth0"));
    assert!(is_physical("wlp3s0"));
}

#[test]
fn empty_input_is_not_an_error() {
    assert_eq!(parse_addrs("[]").unwrap(), Vec::<String>::new());
}

#[test]
fn a_primed_peer_with_a_lan_handshake_is_promoted_to_its_real_address() {
    let dump = dump_of(&[
        hub_line(),
        peer_line(
            PEER,
            "192.168.1.141:51821",
            "fd00:cafe::dead:6/128",
            now_secs(),
            100,
            100,
        ),
    ]);
    let mut host = host_with(&dump);
    let bh = Vec::new();
    host.drive(|s| reconcile_local(s, &bh, now_secs())).1.unwrap();

    assert!(
        host.ran("wg set wg1 peer PEERKEY= allowed-ips fd00:cafe::6/128"),
        "calls were: {:?}",
        host.calls()
    );
}

#[test]
fn the_hub_peer_is_never_touched() {
    let mut host = host_with(&dump_of(&[hub_line()]));
    let bh = Vec::new();
    host.drive(|s| reconcile_local(s, &bh, now_secs())).1.unwrap();

    assert!(
        !host.calls().iter().any(|c| c.contains(HUB)),
        "calls were: {:?}",
        host.calls()
    );
}

#[test]
fn a_primed_peer_that_never_handshaked_is_left_alone() {
    let dump = dump_of(&[
        hub_line(),
        peer_line(
            PEER,
            "192.168.1.141:51821",
            "fd00:cafe::dead:6/128",
            0,
            0,
            0,
        ),
    ]);
    let mut host = host_with(&dump);
    let bh = Vec::new();
    host.drive(|s| reconcile_local(s, &bh, now_secs())).1.unwrap();

    assert!(!host.calls().iter().any(|c| c.starts_with("wg set")));
}

#[test]
fn a_promoted_peer_whose_handshake_went_stale_is_demoted() {
    let dump = dump_of(&[
        hub_line(),
        peer_line(
            PEER,
            "192.168.1.141:51821",
            "fd00:cafe::6/128",
            now_secs() - (HANDSHAKE_MAX_AGE_SECS + 60),
            100,
            100,
        ),
    ]);
    let mut host = host_with(&dump);
    let bh = Vec::new();
    host.drive(|s| reconcile_local(s, &bh, now_secs())).1.unwrap();

    assert!(
        host.ran("wg set wg1 peer PEERKEY= remove"),
        "calls were: {:?}",
        host.calls()
    );
}

#[test]
fn a_healthy_promoted_peer_is_left_exactly_as_it_is() {
    let dump = dump_of(&[
        hub_line(),
        peer_line(
            PEER,
            "192.168.1.141:51821",
            "fd00:cafe::6/128",
            now_secs(),
            500,
            500,
        ),
    ]);
    let mut host = host_with(&dump);
    let bh = Vec::new();
    host.drive(|s| reconcile_local(s, &bh, now_secs())).1.unwrap();

    assert!(
        !host.calls().iter().any(|c| c.starts_with("wg set")),
        "a working direct path must not be disturbed, calls were: {:?}",
        host.calls()
    );
}

#[test]
fn an_unknown_caller_is_primed_as_a_listen_only_peer() {
    let mut host = host_with(&dump_of(&[hub_line()]));
    host.drive(|s| prime_caller(s, PEER, "fd00:cafe::6"));

    assert!(
        host.ran("wg set wg1 peer PEERKEY= allowed-ips fd00:cafe::dead:6/128"),
        "calls were: {:?}",
        host.calls()
    );
    assert!(
        !host.calls().iter().any(|c| c.contains("endpoint")),
        "priming must not set an endpoint — WireGuard learns it from the \
         first valid packet: {:?}",
        host.calls()
    );
}

#[test]
fn a_caller_we_already_know_is_left_completely_alone() {
    let promoted = peer_line(
        PEER,
        "192.168.1.141:51821",
        "fd00:cafe::6/128",
        now_secs(),
        10,
        10,
    );
    let mut host = host_with(&dump_of(&[hub_line(), promoted]));
    host.drive(|s| prime_caller(s, PEER, "fd00:cafe::6"));

    assert!(
        !host.calls().iter().any(|c| c.starts_with("wg set")),
        "calls were: {:?}",
        host.calls()
    );
}

#[test]
fn a_caller_from_an_ipv4_address_is_not_primed() {
    let mut host = host_with(&dump_of(&[hub_line()]));
    host.drive(|s| prime_caller(s, PEER, "192.168.1.141"));

    assert!(!host.calls().iter().any(|c| c.starts_with("wg set")));
}

#[test]
fn a_promoted_and_live_peer_reports_direct_with_its_endpoint() {
    let peers = vec![Peer {
        public_key: PEER.into(),
        endpoint: Some("192.168.1.141:51821".into()),
        allowed_ips: vec!["fd00:cafe::6/128".into()],
        last_handshake: 1_000,
        rx_bytes: 10,
        tx_bytes: 10,
    }];
    let out = path_statuses(&peers, &vec!["fd00:cafe::6".to_string()], 1_030);
    assert_eq!(out[0].path, "direct");
    assert_eq!(out[0].endpoint.as_deref(), Some("192.168.1.141:51821"));
    assert_eq!(out[0].handshake_age_secs, Some(30));
}

#[test]
fn a_peer_still_on_the_probe_address_reports_relayed() {
    let peers = vec![Peer {
        public_key: PEER.into(),
        endpoint: Some("192.168.1.141:51821".into()),
        allowed_ips: vec!["fd00:cafe::dead:6/128".into()],
        last_handshake: 1_000,
        rx_bytes: 10,
        tx_bytes: 10,
    }];
    let out = path_statuses(&peers, &vec!["fd00:cafe::6".to_string()], 1_030);
    assert_eq!(out[0].path, "relayed");
    assert_eq!(out[0].endpoint, None);
}

#[test]
fn a_promoted_peer_with_a_stale_handshake_reports_relayed_not_direct() {
    let peers = vec![Peer {
        public_key: PEER.into(),
        endpoint: Some("192.168.1.141:51821".into()),
        allowed_ips: vec!["fd00:cafe::6/128".into()],
        last_handshake: 1_000,
        rx_bytes: 10,
        tx_bytes: 10,
    }];
    let out = path_statuses(
        &peers,
        &vec!["fd00:cafe::6".to_string()],
        1_000 + HANDSHAKE_MAX_AGE_SECS + 1,
    );
    assert_eq!(out[0].path, "relayed");
}

#[test]
fn a_node_with_no_peer_entry_at_all_reports_relayed() {
    let out = path_statuses(&vec![], &vec!["fd00:cafe::6".to_string()], 1_000);
    assert_eq!(out.len(), 1);
    assert_eq!(out[0].node, "fd00:cafe::6");
    assert_eq!(out[0].path, "relayed");
}

#[test]
fn every_address_gets_exactly_one_row_in_order() {
    let addrs = vec!["fd00:cafe::6".to_string(), "fd00:cafe::7".to_string()];
    let out = path_statuses(&vec![], &addrs, 1_000);
    assert_eq!(
        out.iter().map(|p| p.node.as_str()).collect::<Vec<_>>(),
        vec!["fd00:cafe::6", "fd00:cafe::7"]
    );
}

#[test]
fn sending_without_receiving_is_a_blackhole() {
    let before = Traffic {
        rx_bytes: 900,
        tx_bytes: 1_000,
        at: 0,
    };
    assert!(is_blackholed(
        Some(&before),
        &peer(900, 310_000),
        BLACKHOLE_SECS + 1
    ));
}

#[test]
fn an_idle_peer_is_not_a_blackhole() {
    let before = Traffic {
        rx_bytes: 900,
        tx_bytes: 1_000,
        at: 0,
    };
    assert!(!is_blackholed(
        Some(&before),
        &peer(900, 1_000),
        BLACKHOLE_SECS + 1
    ));
}

#[test]
fn a_peer_that_is_answering_is_not_a_blackhole() {
    let before = Traffic {
        rx_bytes: 900,
        tx_bytes: 1_000,
        at: 0,
    };
    assert!(!is_blackholed(
        Some(&before),
        &peer(5_000, 9_000),
        BLACKHOLE_SECS + 1
    ));
}

#[test]
fn the_window_must_elapse_before_anything_counts() {
    let before = Traffic {
        rx_bytes: 900,
        tx_bytes: 1_000,
        at: 0,
    };
    assert!(!is_blackholed(
        Some(&before),
        &peer(900, 310_000),
        BLACKHOLE_SECS - 1
    ));
}

#[test]
fn a_peer_seen_for_the_first_time_is_never_a_blackhole() {
    assert!(!is_blackholed(None, &peer(0, 999_999), u64::MAX));
}

#[test]
fn counters_that_went_backwards_do_not_read_as_a_blackhole() {
    let before = Traffic {
        rx_bytes: 9_000,
        tx_bytes: 9_000,
        at: 0,
    };
    assert!(!is_blackholed(
        Some(&before),
        &peer(10, 10),
        BLACKHOLE_SECS + 1
    ));
}

#[test]
fn probe_address_lands_outside_the_cluster_subnet() {
    let p = probe_address("fd00:cafe::6").unwrap();
    assert_eq!(p, "fd00:cafe::dead:6/128");
    let ip = ip::parse(p.trim_end_matches("/128")).unwrap();
    assert_ne!(ip.groups[6], 0, "would fall inside fd00:cafe::/112");
}

#[test]
fn probe_addresses_differ_per_peer_so_two_probes_cannot_collide() {
    assert_ne!(
        probe_address("fd00:cafe::6").unwrap(),
        probe_address("fd00:cafe::7").unwrap()
    );
}

#[test]
fn a_non_address_yields_no_probe_rather_than_a_malformed_one() {
    assert_eq!(probe_address("not-an-ip"), None);
    assert_eq!(probe_address("192.168.1.1"), None);
}

#[test]
fn an_ipv6_endpoint_keeps_its_colons_and_loses_its_brackets() {
    assert_eq!(endpoint_host("[fd00:cafe::6]:51821"), "fd00:cafe::6");
    assert_eq!(
        endpoint_host("[2a01:e0a:80a:ba90::1]:51820"),
        "2a01:e0a:80a:ba90::1"
    );
}

#[test]
fn an_ipv4_endpoint_loses_only_its_port() {
    assert_eq!(endpoint_host("192.168.1.141:51821"), "192.168.1.141");
    assert_eq!(endpoint_host("78.47.104.10:51820"), "78.47.104.10");
}

#[test]
fn an_endpoint_with_no_port_is_returned_whole() {
    assert_eq!(endpoint_host("192.168.1.141"), "192.168.1.141");
}

#[test]
fn a_probe_address_round_trips_back_to_the_node_it_stands_for() {
    for node in ["fd00:cafe::5", "fd00:cafe::6", "fd00:cafe::ffff"] {
        let probe = probe_address(node).unwrap();
        assert_eq!(real_address(&probe), Some(format!("{node}/128")));
    }
}

#[test]
fn a_real_address_is_not_mistaken_for_a_probe_one() {
    assert_eq!(real_address("fd00:cafe::6/128"), None);
    assert_eq!(real_address("fd00:cafe::/112"), None);
    assert_eq!(real_address("not-an-ip"), None);
}

#[test]
fn real_address_accepts_the_form_wg_actually_prints() {
    assert_eq!(
        real_address("fd00:cafe::dead:6/128"),
        Some("fd00:cafe::6/128".into())
    );
    assert_eq!(
        real_address("fd00:cafe::dead:6"),
        Some("fd00:cafe::6/128".into())
    );
}

#[test]
fn mod_this_node_is_never_its_own_peer() {
    let nodes = vec![node("fd00:cafe::5"), node("fd00:cafe::6")];
    assert_eq!(
        parse_peer_addresses(&nodes, "fd00:cafe::5"),
        vec!["fd00:cafe::6"]
    );
}

#[test]
fn an_ipv4_internal_ip_is_ignored_rather_than_promoted_to_a_dead_allowed_ips() {
    let nodes = vec![node("10.0.0.7")];
    assert!(parse_peer_addresses(&nodes, "fd00:cafe::5").is_empty());
}

#[test]
fn a_single_node_cluster_yields_no_peers_without_erroring() {
    let nodes = vec![node("fd00:cafe::5")];
    assert!(parse_peer_addresses(&nodes, "fd00:cafe::5").is_empty());
}

#[test]
fn a_silent_path_is_given_up_and_forgotten() {
    let dump = dump_of(&[
        hub_line(),
        peer_line(PEER, "192.168.1.141:51821", "fd00:cafe::6/128", now_secs(), 900, 310_000),
    ]);
    let mut host = host_with(&dump);
    let at = now_secs() - BLACKHOLE_SECS - 1;
    let seen = vec![(PEER.to_string(), Traffic { rx_bytes: 900, tx_bytes: 1_000, at })];
    let (after, r) = host.drive(|s| reconcile_local(s, &seen, now_secs()));
    r.unwrap();
    assert!(host.ran("wg set wg1 peer PEERKEY= remove"), "{:?}", host.calls());
    assert!(after.is_empty(), "{after:?}");
}

#[test]
fn candidates_are_written_and_read_back() {
    let c = Candidates {
        public_key: "K=".into(),
        listen_port: 51821,
        addresses: vec!["192.168.1.50".into()],
    };
    let text = c.text();
    assert_eq!(
        text,
        r#"{"public_key":"K=","listen_port":51821,"addresses":["192.168.1.50"]}"#
    );
    let back = Candidates::from_text(&text).unwrap();
    assert_eq!((back.public_key, back.listen_port, back.addresses), (c.public_key, 51821, c.addresses));
    assert!(Candidates::from_text("{}").is_none());
}

#[test]
fn a_machine_offers_its_key_its_port_and_its_addresses() {
    let mut host = host_with(&dump_of(&[hub_line()]))
        .ok("wg show wg1 public-key", "PUBSELF=\n")
        .ok("wg show wg1 listen-port", "51821\n")
        .ok("ip -j addr show", IP_JSON);
    let offered = host.drive(|s| mesh_candidates(s, &None, "fd00:cafe::6")).unwrap();
    assert_eq!(offered.public_key, "PUBSELF=");
    assert_eq!(offered.listen_port, 51821);
    assert_eq!(offered.addresses, vec!["192.168.1.50", "2a01:e0a:1::42"]);
    assert!(!host.ran("wg set"), "nobody to prime");
}

#[test]
fn an_address_is_written_the_short_way() {
    for (long, short) in [
        ("fd00:cafe:0:0:0:0:0:6", "fd00:cafe::6"),
        ("0:0:0:0:0:0:0:0", "::"),
        ("0:0:0:0:0:0:0:1", "::1"),
        ("2001:db8:0:1:1:1:1:1", "2001:db8:0:1:1:1:1:1"),
        ("2001:0:0:1:0:0:0:1", "2001:0:0:1::1"),
        ("::ffff:10.0.0.1", "::ffff:10.0.0.1"),
        ("FD00::ABCD", "fd00::abcd"),
    ] {
        let read = ip::parse(long).unwrap();
        assert_eq!(read.shown(), short);
        assert_eq!(ip::parse(short).unwrap().groups, read.groups);
    }
    for bad in ["", ":", "1:2:3", "1::2::3", "12345::", "::g", "1:2:3:4:5:6:7:8:9", "::1.2.3"] {
        assert!(ip::parse(bad).is_none(), "{bad}");
    }
}

#[test]
fn an_offer_is_read_by_name_and_in_order() {
    let c = Candidates::from_text(r#"["key",51821,["192.168.1.10"]]"#).unwrap();
    assert_eq!((c.public_key.as_str(), c.listen_port), ("key", 51821));
    assert_eq!(c.addresses, vec!["192.168.1.10".to_string()]);
    assert!(Candidates::from_text(r#"["key",51821]"#).is_none());
    assert!(Candidates::from_text(r#"["key",65536,[]]"#).is_none());
}
