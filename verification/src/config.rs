//! The settings of a machine: where its files are, and which version it follows.
use vstd::prelude::*;

use crate::charts;
use crate::conf;
use crate::conf::ConfDoc;
use crate::effects;
use crate::effects::{Answer, Ask, AskModel, Flow, Script};
use crate::error::{Error, ErrorModel};
use crate::heal::drive;
use crate::json;
use crate::json::{Doc, Entries, Json};
use crate::model::Model;
use crate::paths;
use crate::text;

verus! {

/// Where the system's own versions come from unless something else is said.
pub const DEFAULT_FLAKE_URL: &'static str = "github:DemyCode/yolab";

/// A version that a machine follows: where it comes from, and which one it is.
#[derive(Debug)]
pub struct Channel {
    pub url: String,
    pub ref_: String,
}

/// A `Channel` with its texts as characters.
pub struct ChannelModel {
    pub url: Seq<char>,
    pub ref_: Seq<char>,
}

impl Model for Channel {
    type M = ChannelModel;

    open spec fn model(&self) -> ChannelModel {
        ChannelModel { url: self.url@, ref_: self.ref_@ }
    }
}

/// The source that the environment names, or the usual one.
pub open spec fn flake_url(env: Option<Seq<char>>) -> Seq<char> {
    match env {
        Some(u) => u,
        None => DEFAULT_FLAKE_URL@,
    }
}

/// The source that the environment names, or the usual one.
pub fn default_flake_url(env: Option<&str>) -> (r: String)
    ensures
        r@ == flake_url(env.model()),
{
    match env {
        Some(u) => u.to_owned(),
        None => DEFAULT_FLAKE_URL.to_owned(),
    }
}

/// The version that a machine follows unless something else is said.
pub open spec fn default_channel(url: Seq<char>) -> ChannelModel {
    ChannelModel { url, ref_: "main"@ }
}

impl ChannelModel {
    /// Source and version in one: the source alone without a version.
    pub open spec fn flake(self) -> Seq<char> {
        if self.ref_.len() == 0 {
            self.url
        } else {
            text::shed_back(self.url, '/') + "/"@ + self.ref_
        }
    }
}

impl Channel {
    /// The version that a machine follows unless something else is said.
    pub fn usual(url: &str) -> (r: Channel)
        ensures
            r.model() == default_channel(url@),
    {
        Channel { url: url.to_owned(), ref_: String::from_str("main") }
    }

    /// Source and version in one.
    pub fn flake(&self) -> (r: String)
        ensures
            r@ == self.model().flake(),
    {
        if self.ref_.as_str().unicode_len() == 0 {
            self.url.clone()
        } else {
            let url = text::trim_end_matches(self.url.as_str(), '/');
            text::cat3(url, "/", self.ref_.as_str())
        }
    }
}

/// The version that a text names, when it names one; `url` is the usual source.
pub open spec fn channel_in(t: Option<Seq<char>>, url: Seq<char>) -> ChannelModel {
    match t {
        None => default_channel(url),
        Some(t) => match json::parsed(t) {
            Err(_) => default_channel(url),
            Ok(j) => match json::text_at(j, "ref"@) {
                None => default_channel(url),
                Some(r) => if r.len() == 0 {
                    default_channel(url)
                } else {
                    match json::field(j, "url"@) {
                        None => ChannelModel { url, ref_: r },
                        Some(u) => match json::text_of(u) {
                            Some(u) => if u.len() > 0 {
                                ChannelModel { url: u, ref_: r }
                            } else {
                                default_channel(url)
                            },
                            None => default_channel(url),
                        },
                    }
                },
            },
        },
    }
}

/// The version that a text names, when it names one.
pub fn channel_from(t: &Option<String>, url: &str) -> (r: Channel)
    ensures
        r.model() == channel_in(t.model(), url@),
{
    let t = match t {
        Some(t) => t,
        None => return Channel::usual(url),
    };
    let j = match json::parse(t.as_str()) {
        Ok(j) => j,
        Err(_) => return Channel::usual(url),
    };
    let ref_ = match j.str_at("ref") {
        Some(r) => r,
        None => return Channel::usual(url),
    };
    if ref_.unicode_len() == 0 {
        return Channel::usual(url);
    }
    match j.get("url") {
        None => Channel { url: url.to_owned(), ref_: ref_.to_owned() },
        Some(u) => match u.as_str() {
            Some(u) => {
                if u.unicode_len() > 0 {
                    Channel { url: u.to_owned(), ref_: ref_.to_owned() }
                } else {
                    Channel::usual(url)
                }
            },
            None => Channel::usual(url),
        },
    }
}

/// A version as a document.
pub open spec fn channel_doc(c: ChannelModel) -> Doc {
    Doc::Dict(seq![("ref"@, Doc::Text(c.ref_)), ("url"@, Doc::Text(c.url))])
}

/// Writes a version as a text. One with a source and a version is read back from
/// it as it was.
pub fn channel_text(c: &Channel, url: &str) -> (r: String)
    ensures
        r@ == json::rendered(channel_doc(c.model())),
        c.url@.len() > 0 && c.ref_@.len() > 0 ==> channel_in(Some(r@), url@) == c.model(),
{
    let mut e = Entries::new();
    e.put("ref", Json::text(c.ref_.as_str()));
    e.put("url", Json::text(c.url.as_str()));
    assert(e.docs() =~= channel_doc(c.model())->Dict_0);
    let j = e.done();
    let t = json::render(&j);
    proof {
        reveal_strlit("ref");
        reveal_strlit("url");
        let d = channel_doc(c.model())->Dict_0;
        let k = json::dict_keys(d);
        assert(text::before(k[0], k[1]));
        crate::names::lemma_increasing_steps(k);
        json::lemma_plain(k);
        assert forall|i: int| 0 <= i < d.len() implies json::tidy((#[trigger] d[i]).1, 99) by {
            if i != 0 {
                assert(i == 1);
            }
        }
        json::lemma_said_at(d, 0);
        json::lemma_said_at(d, 1);
        let back = json::parsed(t@)->Ok_0;
        json::lemma_said(back, "ref"@);
        json::lemma_said(back, "url"@);
    }
    t
}

/// The settings of a machine.
#[derive(Debug)]
pub struct Config {
    pub machine_dir: String,
    pub config_path: String,
    pub platform: String,
    pub flake_target: String,
    pub node_ipv6: String,
    pub port: u16,
    pub rebuild_log: String,
    pub rebuild_pid: String,
    pub built_dir: String,
    pub channel_file: String,
    pub terminal_enabled: bool,
}

/// A `Config` with its texts as characters.
pub struct ConfigModel {
    pub machine_dir: Seq<char>,
    pub config_path: Seq<char>,
    pub platform: Seq<char>,
    pub flake_target: Seq<char>,
    pub node_ipv6: Seq<char>,
    pub port: u16,
    pub rebuild_log: Seq<char>,
    pub rebuild_pid: Seq<char>,
    pub built_dir: Seq<char>,
    pub channel_file: Seq<char>,
    pub terminal_enabled: bool,
}

impl Model for Config {
    type M = ConfigModel;

    open spec fn model(&self) -> ConfigModel {
        ConfigModel {
            machine_dir: self.machine_dir@,
            config_path: self.config_path@,
            platform: self.platform@,
            flake_target: self.flake_target@,
            node_ipv6: self.node_ipv6@,
            port: self.port,
            rebuild_log: self.rebuild_log@,
            rebuild_pid: self.rebuild_pid@,
            built_dir: self.built_dir@,
            channel_file: self.channel_file@,
            terminal_enabled: self.terminal_enabled,
        }
    }
}

/// What the environment says about the settings.
#[derive(Debug)]
pub struct Env {
    pub machine_dir: Option<String>,
    pub config: Option<String>,
    pub platform: Option<String>,
    pub flake_target: Option<String>,
    pub node_ipv6: Option<String>,
    pub port: Option<String>,
    pub terminal_enabled: Option<String>,
}

/// A text, or another one without it.
pub open spec fn or_else(o: Option<String>, d: Seq<char>) -> Seq<char> {
    match o {
        Some(t) => t@,
        None => d,
    }
}

/// The port that the environment names: any that is one, and the usual one
/// otherwise.
pub open spec fn port_in(o: Option<String>) -> u16 {
    match o {
        Some(t) => match text::unsigned_value(t@, u16::MAX as nat) {
            Some(n) => n as u16,
            None => 3001,
        },
        None => 3001,
    }
}

/// Whether the environment leaves the terminal on.
pub open spec fn switched_on(o: Option<String>) -> bool {
    match o {
        Some(t) => t@ != "0"@ && text::lowered(t@) != "false"@,
        None => true,
    }
}

/// The settings that the environment says.
pub open spec fn config_of(e: Env) -> ConfigModel {
    let machine_dir = or_else(e.machine_dir, "/var/lib/yolab/machine"@);
    ConfigModel {
        machine_dir,
        config_path: or_else(e.config, machine_dir + "/config.toml"@),
        platform: or_else(e.platform, "nixos"@),
        flake_target: or_else(e.flake_target, "yolab"@),
        node_ipv6: or_else(e.node_ipv6, "::1"@),
        port: port_in(e.port),
        rebuild_log: "/var/log/yolab-rebuild.log"@,
        rebuild_pid: "/run/yolab-rebuild.pid"@,
        built_dir: "/var/lib/yolab"@,
        channel_file: paths::below("/var/lib/yolab"@, "channel.json"@),
        terminal_enabled: switched_on(e.terminal_enabled),
    }
}

fn text_or(o: &Option<String>, d: &str) -> (r: String)
    ensures
        r@ == or_else(*o, d@),
{
    match o {
        Some(t) => t.clone(),
        None => d.to_owned(),
    }
}

/// The directory of the machine's own files.
pub fn machine_dir(env: &Option<String>) -> (r: String)
    ensures
        r@ == or_else(*env, "/var/lib/yolab/machine"@),
{
    text_or(env, "/var/lib/yolab/machine")
}

/// The token of the account in a settings file, or nothing when it cannot be told.
pub open spec fn token_in(r: Option<Seq<char>>) -> Seq<char> {
    match r {
        None => seq![],
        Some(t) => match conf::parsed(t) {
            Err(_) => seq![],
            Ok(d) => match conf::text_under(d, "tunnel"@, "account_token"@) {
                Some(t) => t,
                None => seq![],
            },
        },
    }
}

/// The token of the account in the text of a settings file.
pub fn token_from(t: &Option<String>) -> (r: String)
    ensures
        r@ == token_in(t.model()),
{
    let none = String::new();
    assert(none@ =~= seq![]);
    let t = match t {
        Some(t) => t,
        None => return none,
    };
    let d = match conf::parse(t.as_str()) {
        Ok(d) => d,
        Err(_) => return none,
    };
    match d.text_at("tunnel", "account_token") {
        Some(s) => s.to_owned(),
        None => none,
    }
}

/// Asking for the token of the account.
pub open spec fn token_flow(path: Seq<char>, a: Seq<Answer>, i: int) -> Flow<Seq<char>> {
    effects::text_flow(AskModel::ReadText { path }, a, i).and_then(
        |t: Option<Seq<char>>, j: int| Flow::Done(token_in(t), j),
    )
}

/// Reads the token of the account from a settings file.
pub fn read_account_token(s: &mut Script, config_path: &str) -> (r: Result<String, Ask>)
    ensures
        effects::went(
            r,
            token_flow(config_path@, old(s).answers@, old(s).at as int),
            *old(s),
            *final(s),
        ),
{
    let t = s.text(Ask::ReadText { path: config_path.to_owned() })?;
    Ok(token_from(&t))
}

/// The settings file as a document, when it can be read.
pub open spec fn toml_flow(path: Seq<char>, a: Seq<Answer>, i: int) -> Flow<Option<ConfDoc>> {
    effects::text_flow(AskModel::ReadText { path }, a, i).and_then(
        |t: Option<Seq<char>>, j: int|
            Flow::Done(
                match t {
                    Some(t) => match conf::parsed(t) {
                        Ok(d) => Some(d),
                        Err(_) => None,
                    },
                    None => None,
                },
                j,
            ),
    )
}

/// The table of the tunnel in a document, when there is one.
pub open spec fn tunnel_in(d: Option<ConfDoc>) -> Option<ConfDoc> {
    match d {
        Some(d) => match conf::said(d, "tunnel"@) {
            Some(ConfDoc::Table(t)) => Some(ConfDoc::Table(t)),
            _ => None,
        },
        None => None,
    }
}

/// Reading which version the machine follows.
pub open spec fn channel_flow(file: Seq<char>, url: Seq<char>, a: Seq<Answer>, i: int) -> Flow<
    ChannelModel,
> {
    effects::text_flow(AskModel::ReadText { path: file }, a, i).and_then(
        |t: Option<Seq<char>>, j: int| Flow::Done(channel_in(t, url), j),
    )
}

/// Writing which version the machine follows.
pub open spec fn write_channel_flow(file: Seq<char>, c: ChannelModel, a: Seq<Answer>, i: int) -> Flow<
    Result<(), ErrorModel>,
> {
    effects::did_flow(
        AskModel::WriteFile { path: file, text: json::rendered(channel_doc(c)) },
        a,
        i,
    ).and_then(|r: Result<(), Seq<char>>, j: int| Flow::Done(drive::outcome(r), j))
}

impl Config {
    /// The settings that the environment says.
    pub fn from_env(e: &Env) -> (r: Config)
        ensures
            r.model() == config_of(*e),
    {
        let machine_dir = machine_dir(&e.machine_dir);
        let usual = text::cat(machine_dir.as_str(), "/config.toml");
        let port: u16 = match &e.port {
            Some(t) => match text::parse_unsigned(t.as_str(), 65535) {
                Some(n) => n as u16,
                None => 3001,
            },
            None => 3001,
        };
        let terminal_enabled = match &e.terminal_enabled {
            Some(t) => {
                let low = text::to_lower(t.as_str());
                !text::same(t.as_str(), "0") && !text::same(low.as_str(), "false")
            },
            None => true,
        };
        Config {
            config_path: text_or(&e.config, usual.as_str()),
            machine_dir,
            platform: text_or(&e.platform, "nixos"),
            flake_target: text_or(&e.flake_target, "yolab"),
            node_ipv6: text_or(&e.node_ipv6, "::1"),
            port,
            rebuild_log: String::from_str("/var/log/yolab-rebuild.log"),
            rebuild_pid: String::from_str("/run/yolab-rebuild.pid"),
            built_dir: String::from_str("/var/lib/yolab"),
            channel_file: paths::join("/var/lib/yolab", "channel.json"),
            terminal_enabled,
        }
    }

    /// Where the catalog of apps is kept.
    pub fn catalog_dir(&self) -> (r: String)
        ensures
            r@ == charts::official_path(),
    {
        charts::official_dir()
    }

    /// Which version the machine follows; `url` is the usual source.
    pub fn channel(&self, s: &mut Script, url: &str) -> (r: Result<Channel, Ask>)
        ensures
            effects::went(
                r,
                channel_flow(self.channel_file@, url@, old(s).answers@, old(s).at as int),
                *old(s),
                *final(s),
            ),
    {
        let t = s.text(Ask::ReadText { path: self.channel_file.clone() })?;
        Ok(channel_from(&t, url))
    }

    /// Has the machine follow a version.
    pub fn write_channel(&self, s: &mut Script, ch: &Channel) -> (r: Result<Result<(), Error>, Ask>)
        ensures
            effects::went(
                r,
                write_channel_flow(
                    self.channel_file@,
                    ch.model(),
                    old(s).answers@,
                    old(s).at as int,
                ),
                *old(s),
                *final(s),
            ),
    {
        let text = channel_text(ch, "");
        let r = s.did(Ask::WriteFile { path: self.channel_file.clone(), text })?;
        Ok(drive::ended(r))
    }

    /// Source and version that the machine follows, in one.
    pub fn flake_ref(&self, s: &mut Script, url: &str) -> (r: Result<String, Ask>)
        ensures
            effects::went(
                r,
                channel_flow(self.channel_file@, url@, old(s).answers@, old(s).at as int).and_then(
                    |c: ChannelModel, j: int| Flow::Done(c.flake(), j),
                ),
                *old(s),
                *final(s),
            ),
    {
        let c = self.channel(s, url)?;
        Ok(c.flake())
    }

    /// The token that the machines of a cluster know each other by.
    pub fn cluster_token(&self, s: &mut Script) -> (r: Result<String, Ask>)
        ensures
            effects::went(
                r,
                token_flow(self.config_path@, old(s).answers@, old(s).at as int),
                *old(s),
                *final(s),
            ),
    {
        read_account_token(s, self.config_path.as_str())
    }

    /// The settings file as a document, when it can be read.
    pub fn toml(&self, s: &mut Script) -> (r: Result<Option<conf::Conf>, Ask>)
        ensures
            effects::went(
                r,
                toml_flow(self.config_path@, old(s).answers@, old(s).at as int),
                *old(s),
                *final(s),
            ),
    {
        match s.text(Ask::ReadText { path: self.config_path.clone() })? {
            Some(t) => match conf::parse(t.as_str()) {
                Ok(d) => Ok(Some(d)),
                Err(_) => Ok(None),
            },
            None => Ok(None),
        }
    }

    /// The table of the tunnel in the settings file, when there is one.
    pub fn tunnel_table(&self, s: &mut Script) -> (r: Result<Option<conf::Conf>, Ask>)
        ensures
            effects::went(
                r,
                toml_flow(self.config_path@, old(s).answers@, old(s).at as int).and_then(
                    |d: Option<ConfDoc>, j: int| Flow::Done(tunnel_in(d), j),
                ),
                *old(s),
                *final(s),
            ),
    {
        match self.toml(s)? {
            Some(conf::Conf::Table(t)) => {
                let mut t = t;
                proof {
                    conf::lemma_table(t);
                }
                match conf::take(&mut t, "tunnel") {
                    Some(conf::Conf::Table(x)) => {
                        proof {
                            conf::lemma_table(x);
                        }
                        Ok(Some(conf::Conf::Table(x)))
                    },
                    _ => Ok(None),
                }
            },
            _ => Ok(None),
        }
    }

    /// Settings that touch nothing on the machine.
    pub fn for_test(config_path: &str) -> (r: Config)
        ensures
            r.model() == (ConfigModel {
                machine_dir: "/nonexistent-machine"@,
                config_path: config_path@,
                platform: "test"@,
                flake_target: "yolab"@,
                node_ipv6: "::1"@,
                port: 3001,
                rebuild_log: "/nonexistent/rebuild.log"@,
                rebuild_pid: "/nonexistent/rebuild.pid"@,
                built_dir: "/nonexistent/built"@,
                channel_file: "/nonexistent/channel.json"@,
                terminal_enabled: true,
            }),
    {
        Config {
            machine_dir: String::from_str("/nonexistent-machine"),
            config_path: config_path.to_owned(),
            platform: String::from_str("test"),
            flake_target: String::from_str("yolab"),
            node_ipv6: String::from_str("::1"),
            port: 3001,
            rebuild_log: String::from_str("/nonexistent/rebuild.log"),
            rebuild_pid: String::from_str("/nonexistent/rebuild.pid"),
            built_dir: String::from_str("/nonexistent/built"),
            channel_file: String::from_str("/nonexistent/channel.json"),
            terminal_enabled: true,
        }
    }
}

} // verus!
