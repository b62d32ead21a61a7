//! The topic of the cluster's notifications: the same on every machine, and hard to
//! guess, since it comes of the cluster's own token.
use vstd::prelude::*;

use crate::conf;
use crate::conf::ConfDoc;
use crate::effects;
use crate::effects::{Answer, Ask, AskModel, Flow, Script};
use crate::error::{Error, ErrorModel};
use crate::heal::identity;
use crate::heal::switch;
use crate::model::Model;
use crate::notify::address;
use crate::paths;
use crate::text;

verus! {

/// Where the server's own settings are, below the root.
pub const ENV_FILE: &'static str = "var/lib/yolab/ntfy/ntfy.env";

/// The SHA-256 digest of bytes.
pub uninterp spec fn sha256_of(b: Seq<u8>) -> Seq<u8>;

/// `sha2::Sha256::digest`: thirty-two bytes that depend on the bytes alone.
#[verifier::external_body]
fn sha256(b: &[u8]) -> (r: Vec<u8>)
    ensures
        r@ == sha256_of(b@),
        r@.len() == 32,
{
    <sha2::Sha256 as sha2::Digest>::digest(b).to_vec()
}

/// The cluster's token in a settings file; nothing when it is empty.
pub open spec fn token_said(d: ConfDoc) -> Option<Seq<char>> {
    match conf::said(d, "node"@) {
        Some(n) => match conf::said(n, "k3s"@) {
            Some(k) => match conf::said(k, "token"@) {
                Some(ConfDoc::Text(t)) => if t.len() > 0 {
                    Some(t)
                } else {
                    None
                },
                _ => None,
            },
            None => None,
        },
        None => None,
    }
}

/// The topic that comes of a token.
pub open spec fn topic_of(token: Seq<char>) -> Seq<char> {
    "yolab-"@ + identity::hex_text(
        sha256_of(vstd::utf8::encode_utf8("yolab-ntfy-topic:"@ + token)),
    ).subrange(0, 32)
}

/// The topic of the cluster that a settings file belongs to.
pub open spec fn topic_in(t: Seq<char>) -> Result<Seq<char>, ErrorModel> {
    match conf::parsed(t) {
        Err(e) => Err(ErrorModel::message(e).during("config.toml is not TOML"@)),
        Ok(d) => match token_said(d) {
            Some(token) => Ok(topic_of(token)),
            None => Err(ErrorModel::message("config.toml has no [node.k3s] token"@)),
        },
    }
}

fn topic_from(token: &str) -> (r: String)
    ensures
        r@ == topic_of(token@),
{
    let salted = text::cat("yolab-ntfy-topic:", token);
    let d = sha256(salted.as_str().as_bytes());
    let h = identity::hex_encode(&d);
    text::cat("yolab-", h.as_str().substring_char(0, 32))
}

/// The topic of the cluster that a settings file belongs to.
pub fn topic_from_config(t: &str) -> (r: Result<String, Error>)
    ensures
        r.model() == topic_in(t@),
{
    let d = match conf::parse(t) {
        Err(e) => return Err(Error::msg(e.as_str()).context("config.toml is not TOML")),
        Ok(d) => d,
    };
    if let Some(n) = d.get("node") {
        if let Some(k) = n.get("k3s") {
            if let Some(v) = k.get("token") {
                if let Some(token) = v.as_str() {
                    if token.unicode_len() > 0 {
                        return Ok(topic_from(token));
                    }
                }
            }
        }
    }
    Err(Error::msg("config.toml has no [node.k3s] token"))
}

/// Reading the topic.
pub open spec fn topic_flow(path: Seq<char>, a: Seq<Answer>, i: int) -> Flow<
    Result<Seq<char>, ErrorModel>,
> {
    address::settings_flow(path, a, i).and_ok(|t: Seq<char>, j: int| Flow::Done(topic_in(t), j))
}

/// The topic of the cluster that this machine belongs to.
pub fn topic(s: &mut Script, config_path: &str) -> (r: Result<Result<String, Error>, Ask>)
    ensures
        effects::went(
            r,
            topic_flow(config_path@, old(s).answers@, old(s).at as int),
            *old(s),
            *final(s),
        ),
{
    match address::read_settings(s, config_path)? {
        Err(e) => Ok(Err(e)),
        Ok(t) => Ok(topic_from_config(t.as_str())),
    }
}

/// The server's own settings: one topic is open to whoever knows its name.
pub open spec fn env_of(topic: Seq<char>) -> Seq<char> {
    "NTFY_AUTH_ACCESS='*:"@ + topic + ":rw'\n"@
}

/// Writing the server's own settings.
pub open spec fn env_flow(root: Seq<char>, path: Seq<char>, a: Seq<Answer>, i: int) -> Flow<
    Result<(), ErrorModel>,
> {
    topic_flow(path, a, i).and_ok(
        |topic: Seq<char>, j: int|
            effects::did_flow(
                AskModel::ReplaceFile {
                    path: paths::below(root, ENV_FILE@),
                    text: env_of(topic),
                },
                a,
                j,
            ).and_then(
                |r: Result<(), Seq<char>>, k: int|
                    Flow::Done(
                        match r {
                            Ok(_) => Ok(()),
                            Err(e) => Err(ErrorModel::message(e)),
                        },
                        k,
                    ),
            ),
    )
}

/// Writes the server's own settings.
pub fn write_ntfy_env(s: &mut Script, root: &str, config_path: &str) -> (r: Result<
    Result<(), Error>,
    Ask,
>)
    ensures
        effects::went(
            r,
            env_flow(root@, config_path@, old(s).answers@, old(s).at as int),
            *old(s),
            *final(s),
        ),
{
    let topic = match topic(s, config_path)? {
        Err(e) => return Ok(Err(e)),
        Ok(t) => t,
    };
    let t = text::cat3("NTFY_AUTH_ACCESS='*:", topic.as_str(), ":rw'\n");
    let path = paths::join(root, ENV_FILE);
    match s.did(Ask::ReplaceFile { path, text: t })? {
        Ok(_) => Ok(Ok(())),
        Err(e) => Ok(Err(Error::msg(e.as_str()))),
    }
}

/// What the command that is meant ends with: its code, and a complaint.
pub open spec fn command_flow(
    args: Seq<Seq<char>>,
    config_path: Seq<char>,
    a: Seq<Answer>,
    i: int,
) -> Flow<(u32, Option<Seq<char>>)> {
    if args.len() > 0 && args[0] == "credentials"@ {
        env_flow("/"@, config_path, a, i).and_then(
            |r: Result<(), ErrorModel>, j: int|
                Flow::Done(
                    match r {
                        Ok(_) => (0u32, None),
                        Err(e) => (1u32, Some("notify credentials: "@ + e.chain())),
                    },
                    j,
                ),
        )
    } else {
        Flow::Done(
            (
                2u32,
                Some(
                    "notify: unknown subcommand "@ + (if args.len() > 0 {
                        "Some("@ + text::quoted(args[0]) + ")"@
                    } else {
                        "None"@
                    }) + " (known: credentials)"@,
                ),
            ),
            i,
        )
    }
}

/// Runs the command that is meant: the code it ends with, and a complaint.
pub fn run(s: &mut Script, args: &Vec<String>, config_path: &str) -> (r: Result<
    (u32, Option<String>),
    Ask,
>)
    ensures
        effects::went(
            r,
            command_flow(
                args.model(),
                config_path@,
                old(s).answers@,
                old(s).at as int,
            ),
            *old(s),
            *final(s),
        ),
{
    if args.len() > 0 {
        assert(args.model()[0] == args@[0]@);
        if text::same(args[0].as_str(), "credentials") {
            return match write_ntfy_env(s, "/", config_path)? {
                Ok(_) => Ok((0, None)),
                Err(e) => {
                    let why = e.chain();
                    Ok((1, Some(text::cat("notify credentials: ", why.as_str()))))
                },
            };
        }
        let q = text::quote(args[0].as_str());
        let shown = text::cat3("Some(", q.as_str(), ")");
        return Ok(
            (
                2,
                Some(
                    text::cat3(
                        "notify: unknown subcommand ",
                        shown.as_str(),
                        " (known: credentials)",
                    ),
                ),
            ),
        );
    }
    Ok(
        (
            2,
            Some(
                text::cat3("notify: unknown subcommand ", "None", " (known: credentials)"),
            ),
        ),
    )
}

/// A heal keeps the topic: the settings it writes name the same cluster token.
pub proof fn a_heal_keeps_the_topic(d: ConfDoc, server_addr: Seq<char>, fsid: Seq<char>)
    requires
        switch::rewritten(d, server_addr, fsid) is Ok,
    ensures
        token_said(switch::rewritten(d, server_addr, fsid)->Ok_0) == token_said(d),
{
    reveal_strlit("token");
    reveal_strlit("server_addr");
    assert("token"@.len() != "server_addr"@.len());
    switch::everything_else_stays(d, server_addr, fsid, "node"@, "token"@);
}

} // verus!
