//! One machine's part in installing a cluster anew.

use std::cell::RefCell;
use std::collections::VecDeque;
use std::rc::Rc;

use local_api::effects::{Answer, Ask, Script};
use local_api::exec::CommandOutput;
use local_api::heal::member::{BuildRequest, Builds, Layout, Phase, PhaseView, Reset, ResetView};
use local_api::heal::switch::{
    begin_build, build, commit, current, rewrite_config, save, undo, Begin,
};

const FSID: &str = "0a1b2c3d-1111-4222-8333-444455556666";

#[derive(Default)]
struct Store {
    files: Vec<(String, String)>,
    links: Vec<(String, String)>,
}

impl Store {
    fn put(&mut self, path: &str, text: &str) {
        self.files.retain(|(p, _)| p != path);
        self.files.push((path.to_string(), text.to_string()));
    }

    fn text(&self, path: &str) -> Option<String> {
        self.files.iter().find(|(p, _)| p == path).map(|(_, t)| t.clone())
    }
}

/// Which heal a build runs for.
type Running = Rc<RefCell<Builds>>;

fn builds() -> Running {
    Rc::new(RefCell::new(Builds { heal_id: None }))
}

struct FakeHost {
    calls: Vec<String>,
    script: Vec<(String, VecDeque<Result<String, String>>)>,
    store: Rc<RefCell<Store>>,
    builds: Running,
}

impl FakeHost {
    fn new() -> Self {
        FakeHost { calls: Vec::new(), script: Vec::new(), store: Rc::new(RefCell::new(Store::default())), builds: builds() }
    }

    fn push(&mut self, prefix: &str, answer: Result<String, String>) {
        match self.script.iter_mut().find(|(p, _)| p == prefix) {
            Some((_, q)) => q.push_back(answer),
            None => self.script.push((prefix.to_string(), VecDeque::from([answer]))),
        }
    }

    /// What a command answers; the last answer repeats.
    fn ok(mut self, prefix: &str, out: &str) -> Self {
        self.push(prefix, Ok(out.to_string()));
        self
    }

    fn fail(mut self, prefix: &str, err: &str) -> Self {
        self.push(prefix, Err(err.to_string()));
        self
    }

    /// The longest matching prefix wins.
    fn answer(&mut self, cmd: &str) -> Result<String, String> {
        self.calls.push(cmd.to_string());
        let best = self
            .script
            .iter_mut()
            .filter(|(p, _)| cmd.starts_with(p.as_str()))
            .max_by_key(|(p, _)| p.len());
        match best {
            Some((_, q)) if q.len() > 1 => q.pop_front().unwrap(),
            Some((_, q)) => q.front().unwrap().clone(),
            None => Err(format!("unscripted command: {cmd}")),
        }
    }

    fn calls(&self) -> Vec<String> {
        self.calls.clone()
    }

    fn ran(&self, needle: &str) -> bool {
        self.calls.iter().any(|c| c.contains(needle))
    }

    fn position(&self, needle: &str) -> Option<usize> {
        self.calls.iter().position(|c| c.contains(needle))
    }

    fn run(&mut self, bin: &str, args: &[String], input: &Option<String>) -> Answer {
        let cmd = match input {
            Some(text) => format!("{bin}-{} {text}", args[0]),
            None => format!("{bin} {}", args.join(" ")),
        };
        let (success, stdout, stderr) = match self.answer(&cmd) {
            Ok(out) => (true, out, String::new()),
            Err(err) => (false, String::new(), err),
        };
        Answer::Output(Ok(CommandOutput { success, stdout, stderr }))
    }

    fn perform(&mut self, ask: Ask) -> Answer {
        match ask {
            Ask::Run { bin, args, input, .. } => self.run(&bin, &args, &input),
            Ask::HoldPart => Answer::Done,
            Ask::Building => Answer::Text(self.builds.borrow().running()),
            Ask::SetBuilding { for_heal } => {
                self.builds.borrow_mut().set(for_heal);
                Answer::Done
            }
            Ask::LoadFile { path } => Answer::File(Ok(self.store.borrow().text(&path))),
            Ask::ReplaceFile { path, text } => {
                self.store.borrow_mut().put(&path, &text);
                Answer::Did(Ok(()))
            }
            Ask::RemoveFile { path } => {
                self.store.borrow_mut().files.retain(|(p, _)| *p != path);
                Answer::Did(Ok(()))
            }
            Ask::ClearDir { path } => {
                self.store.borrow_mut().files.retain(|(p, _)| !p.starts_with(&format!("{path}/")));
                Answer::Did(Ok(()))
            }
            Ask::MakeDir { .. } => Answer::Did(Ok(())),
            Ask::Entries { path } => {
                let dir = format!("{path}/");
                let store = self.store.borrow();
                let names = store.files.iter().filter_map(|(p, _)| p.strip_prefix(&dir));
                Answer::Entries(Ok(names
                    .filter(|n| !n.contains('/'))
                    .map(str::to_string)
                    .collect()))
            }
            Ask::IsFile { path } => Answer::Check(Ok(self.store.borrow().text(&path).is_some())),
            Ask::Exists { path } => Answer::Yes(self.store.borrow().text(&path).is_some()),
            Ask::CopyFile { from, to } => {
                let text = self.store.borrow().text(&from);
                Answer::Did(match text {
                    Some(t) => {
                        self.store.borrow_mut().put(&to, &t);
                        Ok(())
                    }
                    None => Err("no such file".to_string()),
                })
            }
            Ask::LinkTarget { path } => {
                let store = self.store.borrow();
                let found = store.links.iter().find(|(p, _)| *p == path);
                Answer::File(Ok(found.map(|(_, t)| t.clone())))
            }
            other => panic!("nothing answers {other:?}"),
        }
    }

    /// On this machine, while this build runs.
    fn on(&mut self, m: &Machine, builds: &Running) -> &mut Self {
        self.store = m.store.clone();
        self.builds = builds.clone();
        self
    }

    /// Runs a procedure, answering what it asks, until it is done.
    fn drive<T>(&mut self, f: impl Fn(&mut Script) -> Result<T, Ask>) -> T {
        let mut script = Script::new();
        loop {
            match f(&mut script) {
                Ok(done) => return done,
                Err(ask) => {
                    let answer = self.perform(ask);
                    script.answer(answer);
                }
            }
        }
    }
}

struct Machine {
    store: Rc<RefCell<Store>>,
    layout: Layout,
    system: String,
    running: String,
}

impl Machine {
    fn text(&self, path: &str) -> String {
        self.store.borrow().text(path).unwrap()
    }

    fn has(&self, path: &str) -> bool {
        self.store.borrow().text(path).is_some()
    }

    fn current(
        &self,
        boot_id: &str,
        builds: &Running,
    ) -> Result<Option<ResetView>, local_api::error::Error> {
        FakeHost::new().on(self, builds).drive(|s| current(s, &self.layout, boot_id))
    }
}

/// A machine directory with a config.toml, a built system and a running one.
fn machine() -> Machine {
    let layout = Layout {
        root: "/".into(),
        machine_dir: "/var/lib/yolab/machine".into(),
        repo: "/etc/nixos".into(),
        flake_target: "yolab".into(),
        mark: "var/lib/yolab/reset-on-boot".into(),
    };
    let mut store = Store::default();
    store.put(
        "/var/lib/yolab/machine/config.toml",
        "[node]\nsub_ipv6_private = \"fd00::2\"\n[node.k3s]\ntoken = \"t\"\nserver_addr = \"\"\n[ceph]\nfsid = \"old\"\n",
    );
    store.put("/var/lib/yolab/machine/hardware-configuration.nix", "{}");
    let system = "/nix/store/new-system".to_string();
    let running = "/nix/store/old-system".to_string();
    for s in [&system, &running] {
        store.put(&format!("{s}/bin/switch-to-configuration"), "");
    }
    store.links.push((layout.current_system(), running.clone()));
    Machine { store: Rc::new(RefCell::new(store)), layout, system, running }
}

fn request(heal_id: &str) -> BuildRequest {
    BuildRequest {
        heal_id: heal_id.into(),
        driver: "node1".into(),
        fsid: FSID.into(),
        server_addr: "https://[fd00::1]:6443".into(),
    }
}

/// A host whose `nix build` leaves the link to `system`, the way the real one does.
fn build_host(m: &Machine) -> FakeHost {
    m.store.borrow_mut().links.push((m.layout.system_link(), m.system.clone()));
    FakeHost::new().ok("nix build", "")
}

fn built(m: &Machine, heal_id: &str) {
    let reset = Reset {
        request: request(heal_id),
        phase: Phase::Built { system: m.system.clone() },
    };
    FakeHost::new().on(m, &builds()).drive(|s| save(s, &m.layout, &reset)).unwrap();
    m.store.borrow_mut().put(&m.layout.staged_config(), "new config");
}

fn config(m: &Machine) -> String {
    m.text(&m.layout.config())
}

fn read(text: &str) -> toml::Table {
    text.parse().unwrap()
}

#[test]
fn the_config_gets_the_new_cluster_and_keeps_everything_else() {
    let before = "[homelab]\nhostname = \"node2\"\n[node]\nsub_ipv6_private = \"fd00::2\"\n[node.k3s]\ntoken = \"tok\"\nserver_addr = \"https://[fd00::1]:6443\"\n[ceph]\nfsid = \"old\"\n";
    let after = read(&rewrite_config(before, "", FSID).unwrap());
    assert_eq!(after["node"]["k3s"]["server_addr"].as_str(), Some(""));
    assert_eq!(after["node"]["k3s"]["token"].as_str(), Some("tok"));
    assert_eq!(after["ceph"]["fsid"].as_str(), Some(FSID));
    assert_eq!(after["homelab"]["hostname"].as_str(), Some("node2"));
    assert_eq!(after["node"]["sub_ipv6_private"].as_str(), Some("fd00::2"));

    let without_ceph = "[node.k3s]\ntoken = \"tok\"\n";
    let after = read(&rewrite_config(without_ceph, "https://[fd00::1]:6443", FSID).unwrap());
    assert_eq!(after["ceph"]["fsid"].as_str(), Some(FSID));
    assert!(rewrite_config("[homelab]\n", "", FSID).is_err(), "no [node.k3s] to set");
}

#[test]
fn a_request_is_checked_before_anything_is_built_from_it() {
    assert!(request("ab12").validate().is_ok());
    let bad = [
        BuildRequest { heal_id: "../x".into(), ..request("ab12") },
        BuildRequest { fsid: "not-a-uuid".into(), ..request("ab12") },
        BuildRequest { server_addr: "https://fd00::1:6443".into(), ..request("ab12") },
        BuildRequest { server_addr: "https://[fd00::1]:6443\"\n[x]".into(), ..request("ab12") },
        BuildRequest { driver: "".into(), ..request("ab12") },
    ];
    for r in bad {
        assert!(r.validate().is_err(), "{r:?}");
    }
    assert!(BuildRequest { server_addr: "".into(), ..request("ab12") }.validate().is_ok());
}

#[test]
fn a_build_stages_the_new_config_and_touches_nothing_the_machine_runs_on() {
    let m = machine();
    let mut host = build_host(&m);
    let running = builds();
    let req = request("ab12");
    let before = config(&m);

    assert!(matches!(host.on(&m, &running).drive(|s| begin_build(s, &m.layout, &req, "boot1")).unwrap(), Begin::Start));
    assert_eq!(m.current("boot1", &running).unwrap().unwrap().phase, PhaseView::Building);
    host.on(&m, &running).drive(|s| build(s, &m.layout, &req));

    let v = m.current("boot1", &running).unwrap().unwrap();
    assert_eq!(v.phase, PhaseView::Built, "{v:?}");
    let staged = m.text(&m.layout.staged_config());
    assert!(staged.contains(FSID) && staged.contains("https://[fd00::1]:6443"));
    assert!(m.has(&format!("{}/hardware-configuration.nix", m.layout.staging())));
    assert!(host.ran(&format!(
        "nix build /etc/nixos#nixosConfigurations.yolab.config.system.build.toplevel --override-input yolab-machine path:{}",
        m.layout.staging()
    )));
    assert_eq!(config(&m), before, "config.toml is untouched");
    assert!(!m.has(&m.layout.marker()));
    assert!(!host.ran("switch-to-configuration") && !host.ran("nix-env"));
}

#[test]
fn a_failed_build_is_reported_with_its_error() {
    let m = machine();
    let mut host = FakeHost::new().fail("nix build", "error: attribute 'yolab' missing");
    let running = builds();
    let req = request("ab12");
    host.on(&m, &running).drive(|s| begin_build(s, &m.layout, &req, "boot1")).unwrap();
    host.on(&m, &running).drive(|s| build(s, &m.layout, &req));
    let v = m.current("boot1", &running).unwrap().unwrap();
    assert_eq!(v.phase, PhaseView::Failed);
    assert!(v.error.unwrap().contains("attribute 'yolab' missing"));
}

#[test]
fn asking_again_does_not_build_twice_and_an_interrupted_build_is_a_failure() {
    let m = machine();
    let mut host = FakeHost::new();
    let running = builds();
    let req = request("ab12");
    host.on(&m, &running).drive(|s| begin_build(s, &m.layout, &req, "boot1")).unwrap();
    assert!(matches!(
        host.on(&m, &running).drive(|s| begin_build(s, &m.layout, &req, "boot1")).unwrap(),
        Begin::Already(ResetView { phase: PhaseView::Building, .. })
    ));
    assert!(
        host.on(&m, &running).drive(|s| begin_build(s, &m.layout, &request("cd34"), "boot1")).is_err(),
        "one build at a time"
    );

    // local-api restarted: nothing builds any more.
    let fresh = builds();
    let v = m.current("boot1", &fresh).unwrap().unwrap();
    assert_eq!(v.phase, PhaseView::Failed);
    assert_eq!(v.error.as_deref(), Some("the build was interrupted"));
}

#[test]
fn a_commit_switches_the_boot_entry_then_the_config_then_leaves_the_marker() {
    let m = machine();
    built(&m, "ab12");
    let mut host = FakeHost::new().ok("nix-env", "").ok(&m.system, "");

    host.on(&m, &builds()).drive(|s| commit(s, &m.layout, "ab12", "boot1")).unwrap();

    let first = host.position(&format!("nix-env -p /nix/var/nix/profiles/system --set {}", m.system)).unwrap();
    let switch = host.position(&format!("{}/bin/switch-to-configuration boot", m.system)).unwrap();
    assert!(first < switch);
    assert_eq!(config(&m), "new config");
    assert!(m.text(&m.layout.config_before()).contains("fsid = \"old\""));
    assert_eq!(m.text(&m.layout.marker()), "ab12");
    let running = builds();
    assert_eq!(m.current("boot1", &running).unwrap().unwrap().phase, PhaseView::Committed);
    assert_eq!(m.current("boot2", &running).unwrap().unwrap().phase, PhaseView::Restarted);

    // Asked again in the same boot: nothing more happens.
    let calls = host.calls().len();
    host.on(&m, &builds()).drive(|s| commit(s, &m.layout, "ab12", "boot1")).unwrap();
    assert_eq!(host.calls().len(), calls);
}

#[test]
fn a_commit_that_fails_puts_the_running_system_back() {
    let m = machine();
    built(&m, "ab12");
    let before = config(&m);
    let mut host = FakeHost::new()
        .ok("nix-env", "")
        .fail(&format!("{}/bin/switch-to-configuration", m.system), "bootctl: no space left")
        .ok(&format!("{}/bin/switch-to-configuration", m.running), "");

    let err = host.on(&m, &builds()).drive(|s| commit(s, &m.layout, "ab12", "boot1")).unwrap_err();

    assert!(err.chain().contains("no space left"));
    assert!(host.ran(&format!("nix-env -p /nix/var/nix/profiles/system --set {}", m.running)));
    assert!(host.ran(&format!("{}/bin/switch-to-configuration boot", m.running)));
    assert_eq!(config(&m), before);
    assert!(!m.has(&m.layout.marker()));
    assert_eq!(m.current("boot1", &builds()).unwrap().unwrap().phase, PhaseView::Failed);
}

#[test]
fn only_a_built_heal_is_committed() {
    let m = machine();
    let mut host = FakeHost::new();
    assert!(host.on(&m, &builds()).drive(|s| commit(s, &m.layout, "ab12", "boot1")).is_err(), "nothing built");
    built(&m, "ab12");
    assert!(host.on(&m, &builds()).drive(|s| commit(s, &m.layout, "cd34", "boot1")).is_err(), "another heal");
    assert!(host.calls().is_empty());
}

#[test]
fn an_undo_before_the_restart_puts_everything_back() {
    let m = machine();
    built(&m, "ab12");
    let before = config(&m);
    let mut host = FakeHost::new().ok("nix-env", "").ok(&m.system, "").ok(&m.running, "");
    host.on(&m, &builds()).drive(|s| commit(s, &m.layout, "ab12", "boot1")).unwrap();

    host.on(&m, &builds()).drive(|s| undo(s, &m.layout, "ab12", "boot1", true)).unwrap();

    assert!(!m.has(&m.layout.marker()));
    assert_eq!(config(&m), before);
    assert!(host.ran(&format!("{}/bin/switch-to-configuration boot", m.running)));
    assert_eq!(m.current("boot1", &builds()).unwrap().unwrap().phase, PhaseView::Undone);
    // Again, and for a heal this machine never heard of: nothing to do.
    host.on(&m, &builds()).drive(|s| undo(s, &m.layout, "ab12", "boot1", true)).unwrap();
    host.on(&m, &builds()).drive(|s| undo(s, &m.layout, "ffff", "boot1", true)).unwrap();
}

#[test]
fn a_machine_that_restarted_into_the_new_cluster_cannot_be_undone() {
    let m = machine();
    built(&m, "ab12");
    let mut host = FakeHost::new().ok("nix-env", "").ok(&m.system, "");
    host.on(&m, &builds()).drive(|s| commit(s, &m.layout, "ab12", "boot1")).unwrap();
    assert!(host.on(&m, &builds()).drive(|s| undo(s, &m.layout, "ab12", "boot2", true)).is_err());
}

#[test]
fn an_undo_during_the_build_keeps_the_heal_undone_when_the_build_ends() {
    let m = machine();
    let mut host = build_host(&m);
    let running = builds();
    let req = request("ab12");
    host.on(&m, &running).drive(|s| begin_build(s, &m.layout, &req, "boot1")).unwrap();
    host.on(&m, &builds()).drive(|s| undo(s, &m.layout, "ab12", "boot1", true)).unwrap();
    host.on(&m, &running).drive(|s| build(s, &m.layout, &req));
    assert_eq!(m.current("boot1", &running).unwrap().unwrap().phase, PhaseView::Undone);
}

#[test]
fn a_new_heal_undoes_a_commit_nobody_drives_any_more() {
    let m = machine();
    built(&m, "ab12");
    let mut host = FakeHost::new().ok("nix-env", "").ok(&m.system, "").ok(&m.running, "");
    host.on(&m, &builds()).drive(|s| commit(s, &m.layout, "ab12", "boot1")).unwrap();

    let running = builds();
    let begin = host.on(&m, &running).drive(|s| begin_build(s, &m.layout, &request("cd34"), "boot1")).unwrap();

    assert!(matches!(begin, Begin::Start), "{begin:?}");
    assert!(!m.has(&m.layout.marker()));
    assert!(host.ran(&format!("{}/bin/switch-to-configuration boot", m.running)));
}

#[test]
fn a_commit_that_was_repeated_is_taken_back_whole() {
    let m = machine();
    built(&m, "ab12");
    let before = config(&m);
    let mut host = FakeHost::new().ok("nix-env", "").ok(&m.system, "").ok(&m.running, "");
    host.on(&m, &builds()).drive(|s| commit(s, &m.layout, "ab12", "boot1")).unwrap();
    let files = m.store.borrow().files.clone();
    host.on(&m, &builds()).drive(|s| commit(s, &m.layout, "ab12", "boot1")).unwrap();
    assert_eq!(m.store.borrow().files, files, "nothing was written");

    host.on(&m, &builds()).drive(|s| undo(s, &m.layout, "ab12", "boot1", true)).unwrap();
    assert!(!m.has(&m.layout.marker()));
    assert_eq!(config(&m), before);
}

#[test]
fn an_undo_is_recorded_and_repeating_it_runs_nothing() {
    let m = machine();
    built(&m, "ab12");
    let mut host = FakeHost::new().ok("nix-env", "").ok(&m.system, "").ok(&m.running, "");
    host.on(&m, &builds()).drive(|s| commit(s, &m.layout, "ab12", "boot1")).unwrap();
    assert!(
        host.on(&m, &builds()).drive(|s| undo(s, &m.layout, "ab12", "boot1", false)).is_err(),
        "an update holds the system"
    );
    host.on(&m, &builds()).drive(|s| undo(s, &m.layout, "ab12", "boot1", true)).unwrap();
    assert_eq!(m.current("boot1", &builds()).unwrap().unwrap().phase, PhaseView::Undone);

    let ran = host.calls().len();
    let files = m.store.borrow().files.clone();
    for boot in ["boot1", "boot2"] {
        host.on(&m, &builds()).drive(|s| undo(s, &m.layout, "ab12", boot, false)).unwrap();
        host.on(&m, &builds()).drive(|s| undo(s, &m.layout, "ffff", boot, false)).unwrap();
    }
    assert_eq!(host.calls().len(), ran, "nothing was run");
    assert_eq!(m.store.borrow().files, files, "nothing was written");
}
