//! The public names of this machine.
use vstd::prelude::*;

use crate::conf;
use crate::conf::{Conf, ConfDoc};
use crate::effects;
use crate::effects::{Answer, Ask, AskModel, Flow, Script};
use crate::error::{Error, ErrorModel};
use crate::loop_osd;
use crate::model::Model;
use crate::text;

verus! {

/// What the settings say about the way to the platform.
#[derive(Debug)]
pub struct Tunnel {
    pub enabled: bool,
    pub platform_api_url: String,
    pub account_token: String,
    pub tunnel_id: String,
    pub sub_ipv6: String,
    /// The machine's own name.
    pub host: String,
}

/// A `Tunnel` with its texts as characters.
pub struct TunnelModel {
    pub enabled: bool,
    pub platform_api_url: Seq<char>,
    pub account_token: Seq<char>,
    pub tunnel_id: Seq<char>,
    pub sub_ipv6: Seq<char>,
    pub host: Seq<char>,
}

impl Model for Tunnel {
    type M = TunnelModel;

    open spec fn model(&self) -> TunnelModel {
        TunnelModel {
            enabled: self.enabled,
            platform_api_url: self.platform_api_url@,
            account_token: self.account_token@,
            tunnel_id: self.tunnel_id@,
            sub_ipv6: self.sub_ipv6@,
            host: self.host@,
        }
    }
}

// ── Reading ──────────────────────────────────────────────────────────────────

/// The text under a key of a table; empty when there is none.
pub open spec fn text_or_none(t: ConfDoc, key: Seq<char>) -> Seq<char> {
    match conf::said(t, key) {
        Some(ConfDoc::Text(s)) => s,
        _ => ""@,
    }
}

/// The name in an address: without how it is reached, and without slashes behind.
pub open spec fn host_in(url: Seq<char>) -> Seq<char> {
    text::shed_back(
        loop_osd::shed_prefix(loop_osd::shed_prefix(url, "https://"@), "http://"@),
        '/',
    )
}

/// The way to the platform in a table.
pub open spec fn tunnel_said(t: ConfDoc) -> TunnelModel {
    TunnelModel {
        enabled: conf::said(t, "enabled"@) == Some(ConfDoc::Flag(true)),
        platform_api_url: text::shed_back(text_or_none(t, "platform_api_url"@), '/'),
        account_token: text_or_none(t, "account_token"@),
        tunnel_id: text_or_none(t, "tunnel_id"@),
        sub_ipv6: text_or_none(t, "sub_ipv6"@),
        host: host_in(text_or_none(t, "dns_url"@)),
    }
}

/// The way to the platform in a settings file.
pub open spec fn tunnel_in(t: Seq<char>) -> Result<TunnelModel, ErrorModel> {
    match conf::parsed(t) {
        Err(e) => Err(ErrorModel::message(e).during("config.toml is not TOML"@)),
        Ok(d) => match conf::said(d, "tunnel"@) {
            Some(ConfDoc::Table(e)) => Ok(tunnel_said(ConfDoc::Table(e))),
            _ => Err(ErrorModel::message("config.toml has no [tunnel]"@)),
        },
    }
}

/// The text of a settings file, or why there is none.
pub open spec fn settings_text(path: Seq<char>, r: Result<Option<Seq<char>>, Seq<char>>) -> Result<
    Seq<char>,
    ErrorModel,
> {
    match r {
        Ok(Some(t)) => Ok(t),
        Ok(None) => Err(
            ErrorModel::message("No such file or directory (os error 2)"@).during("read "@ + path),
        ),
        Err(e) => Err(ErrorModel::message(e).during("read "@ + path)),
    }
}

/// Reading a settings file.
pub open spec fn settings_flow(path: Seq<char>, a: Seq<Answer>, i: int) -> Flow<
    Result<Seq<char>, ErrorModel>,
> {
    effects::file_flow(AskModel::LoadFile { path }, a, i).and_then(
        |r: Result<Option<Seq<char>>, Seq<char>>, j: int| Flow::Done(settings_text(path, r), j),
    )
}

/// Reads a settings file.
pub fn read_settings(s: &mut Script, path: &str) -> (r: Result<Result<String, Error>, Ask>)
    ensures
        effects::went(
            r,
            settings_flow(path@, old(s).answers@, old(s).at as int),
            *old(s),
            *final(s),
        ),
{
    let r = s.file(Ask::LoadFile { path: path.to_owned() })?;
    let what = text::cat("read ", path);
    match r {
        Ok(Some(t)) => Ok(Ok(t)),
        Ok(None) => Ok(
            Err(Error::msg("No such file or directory (os error 2)").context(what.as_str())),
        ),
        Err(e) => Ok(Err(Error::msg(e.as_str()).context(what.as_str()))),
    }
}

/// Reading the way to the platform.
pub open spec fn tunnel_flow(path: Seq<char>, a: Seq<Answer>, i: int) -> Flow<
    Result<TunnelModel, ErrorModel>,
> {
    settings_flow(path, a, i).and_ok(|t: Seq<char>, j: int| Flow::Done(tunnel_in(t), j))
}

fn text_at(t: &Conf, key: &str) -> (r: String)
    ensures
        r@ == text_or_none(t.model(), key@),
{
    match t.get(key) {
        Some(v) => match v.as_str() {
            Some(s) => s.to_owned(),
            None => String::from_str(""),
        },
        None => String::from_str(""),
    }
}

fn host_of(url: &str) -> (r: String)
    ensures
        r@ == host_in(url@),
{
    proof {
        reveal_strlit("https://");
        reveal_strlit("http://");
    }
    let a = loop_osd::trim_prefix(url, "https://");
    let b = loop_osd::trim_prefix(a, "http://");
    text::trim_end_matches(b, '/').to_owned()
}

impl Tunnel {
    fn from_table(t: &Conf) -> (r: Tunnel)
        ensures
            r.model() == tunnel_said(t.model()),
    {
        let enabled = match t.get("enabled") {
            Some(Conf::Flag(b)) => *b,
            _ => false,
        };
        let url = text_at(t, "platform_api_url");
        let dns = text_at(t, "dns_url");
        Tunnel {
            enabled,
            platform_api_url: text::trim_end_matches(url.as_str(), '/').to_owned(),
            account_token: text_at(t, "account_token"),
            tunnel_id: text_at(t, "tunnel_id"),
            sub_ipv6: text_at(t, "sub_ipv6"),
            host: host_of(dns.as_str()),
        }
    }

    /// Reads the way to the platform from the text of a settings file.
    pub fn parse(t: &str) -> (r: Result<Tunnel, Error>)
        ensures
            r.model() == tunnel_in(t@),
    {
        match conf::parse(t) {
            Err(e) => Err(Error::msg(e.as_str()).context("config.toml is not TOML")),
            Ok(d) => match d.get("tunnel") {
                Some(c) => match c {
                    Conf::Table(_) => Ok(Tunnel::from_table(c)),
                    _ => Err(Error::msg("config.toml has no [tunnel]")),
                },
                None => Err(Error::msg("config.toml has no [tunnel]")),
            },
        }
    }

    /// Reads the way to the platform from a settings file.
    pub fn read(s: &mut Script, config_path: &str) -> (r: Result<Result<Tunnel, Error>, Ask>)
        ensures
            effects::went(
                r,
                tunnel_flow(config_path@, old(s).answers@, old(s).at as int),
                *old(s),
                *final(s),
            ),
    {
        match read_settings(s, config_path)? {
            Err(e) => Ok(Err(e)),
            Ok(t) => Ok(Tunnel::parse(t.as_str())),
        }
    }
}

// ── Names ────────────────────────────────────────────────────────────────────

impl TunnelModel {
    /// The user's own zone: the machine's name without its first part.
    pub open spec fn zone(self) -> Option<Seq<char>> {
        match text::cut_first(self.host, '.') {
            Some((_, rest)) => if rest.len() > 0 {
                Some(rest)
            } else {
                None
            },
            None => None,
        }
    }

    /// A name that every machine of the user shares.
    pub open spec fn shared(self, name: Seq<char>) -> Option<Seq<char>> {
        match self.zone() {
            Some(z) => Some(name + "."@ + z),
            None => None,
        }
    }

    /// The machine's name for people: the first part of its own.
    pub open spec fn label(self) -> Seq<char> {
        text::pieces(self.host, '.')[0]
    }

    /// The name of this machine's own record of the notification server.
    pub open spec fn record_name(self) -> Option<Seq<char>> {
        if self.label().len() > 0 {
            Some("ntfy-"@ + self.label())
        } else {
            None
        }
    }
}

impl Tunnel {
    /// The user's own zone: the machine's name without its first part.
    pub fn user_domain(&self) -> (r: Option<&str>)
        ensures
            text::opt_view(r) == self.model().zone(),
    {
        match text::split_once(self.host.as_str(), '.') {
            Some((_, rest)) => {
                if rest.unicode_len() > 0 {
                    Some(rest)
                } else {
                    None
                }
            },
            None => None,
        }
    }

    /// A name that every machine of the user shares.
    pub fn shared_host(&self, name: &str) -> (r: Option<String>)
        ensures
            r.model() == self.model().shared(name@),
    {
        match self.user_domain() {
            Some(z) => Some(text::cat3(name, ".", z)),
            None => None,
        }
    }

    /// The machine's name for people.
    pub fn machine_label(&self) -> (r: String)
        ensures
            r@ == self.model().label(),
    {
        let p = text::split(self.host.as_str(), '.');
        let ghost v = text::views(p@);
        proof {
            text::lemma_some_piece(self.host@, '.');
        }
        assert(v[0] == p@[0]@);
        p[0].to_owned()
    }

    /// The name of this machine's own record of the notification server.
    pub fn ntfy_record_name(&self) -> (r: Option<String>)
        ensures
            r.model() == self.model().record_name(),
    {
        let l = self.machine_label();
        if l.as_str().unicode_len() > 0 {
            Some(text::cat("ntfy-", l.as_str()))
        } else {
            None
        }
    }
}

} // verus!
