//! What the console shows before the login: where this machine is managed.
use vstd::prelude::*;

use crate::conf;
use crate::effects;
use crate::effects::{Answer, Ask, AskModel, Flow, Script};
use crate::error::{Error, ErrorModel};
use crate::exec::{CmdErrorModel, CommandOutputModel};
use crate::host;
use crate::model::Model;
use crate::text;

verus! {

/// The address in a settings file, if there is one.
pub open spec fn url_in(t: Option<Seq<char>>) -> Option<Seq<char>> {
    match t {
        None => None,
        Some(t) => match conf::parsed(t) {
            Err(_) => None,
            Ok(d) => conf::text_under(d, "tunnel"@, "dns_url"@),
        },
    }
}

fn url_from(t: &Option<String>) -> (r: Option<String>)
    ensures
        r.model() == url_in(t.model()),
{
    let t = match t {
        None => return None,
        Some(t) => t,
    };
    match conf::parse(t.as_str()) {
        Err(_) => None,
        Ok(d) => match d.text_at("tunnel", "dns_url") {
            Some(u) => Some(u.to_owned()),
            None => None,
        },
    }
}

/// Reading the address.
pub open spec fn url_flow(path: Seq<char>, a: Seq<Answer>, i: int) -> Flow<Option<Seq<char>>> {
    effects::text_flow(AskModel::ReadText { path }, a, i).and_then(
        |t: Option<Seq<char>>, j: int| Flow::Done(url_in(t), j),
    )
}

/// The address in the settings file. No file, one that is none, and one without an
/// address all mean that this machine is not set up yet.
pub fn read_dns_url(s: &mut Script, config_path: &str) -> (r: Result<Option<String>, Ask>)
    ensures
        effects::went(
            r,
            url_flow(config_path@, old(s).answers@, old(s).at as int),
            *old(s),
            *final(s),
        ),
{
    let t = s.text(Ask::ReadText { path: config_path.to_owned() })?;
    Ok(url_from(&t))
}

/// What is shown.
pub open spec fn banner_of(url: Option<Seq<char>>, qr: Option<Seq<char>>) -> Seq<char> {
    match url {
        Some(u) => if u.len() > 0 {
            "\n"@ + (match qr {
                Some(q) => q,
                None => ""@,
            }) + "\n  YoLab Management: "@ + u + "\n\n"@
        } else {
            "\n"@ + "  YoLab — not yet configured\n\n"@
        },
        None => "\n"@ + "  YoLab — not yet configured\n\n"@,
    }
}

/// What is shown: the address, with a drawing of it when there is one.
pub fn format_banner(dns_url: Option<&str>, qr: Option<&str>) -> (r: String)
    ensures
        r@ == banner_of(dns_url.model(), qr.model()),
{
    match dns_url {
        Some(u) => {
            if u.unicode_len() > 0 {
                let drawing = match qr {
                    Some(q) => q,
                    None => "",
                };
                return text::cat5("\n", drawing, "\n  YoLab Management: ", u, "\n\n");
            }
        },
        None => {},
    }
    text::cat("\n", "  YoLab — not yet configured\n\n")
}

/// A drawing of an address, if it can be made.
pub open spec fn qr_flow(url: Option<Seq<char>>, a: Seq<Answer>, i: int) -> Flow<Option<Seq<char>>> {
    match url {
        Some(u) => if u.len() > 0 {
            host::run_cmd_flow(
                "qrencode"@,
                seq!["-t"@, "UTF8"@, "-m"@, "1"@, u],
                host::RUN_CMD_SECS,
                a,
                i,
            ).and_then(
                |r: Result<CommandOutputModel, CmdErrorModel>, j: int|
                    Flow::Done(
                        match r {
                            Ok(out) => if out.success {
                                Some(out.stdout)
                            } else {
                                None
                            },
                            Err(_) => None,
                        },
                        j,
                    ),
            )
        } else {
            Flow::Done(None, i)
        },
        None => Flow::Done(None, i),
    }
}

fn qr_of(s: &mut Script, url: &Option<String>) -> (r: Result<Option<String>, Ask>)
    ensures
        effects::went(
            r,
            qr_flow(url.model(), old(s).answers@, old(s).at as int),
            *old(s),
            *final(s),
        ),
{
    let u = match url {
        Some(u) => u.as_str(),
        None => return Ok(None),
    };
    if u.unicode_len() == 0 {
        return Ok(None);
    }
    let args: [&str; 5] = ["-t", "UTF8", "-m", "1", u];
    assert((&args).model() =~= seq!["-t"@, "UTF8"@, "-m"@, "1"@, u@]);
    match host::run_cmd(s, "qrencode", &args)? {
        Ok(out) => {
            if out.success {
                Ok(Some(out.stdout))
            } else {
                Ok(None)
            }
        },
        Err(_) => Ok(None),
    }
}

/// Writing what is shown.
pub open spec fn run_flow(config_path: Seq<char>, issue_path: Seq<char>, a: Seq<Answer>, i: int) -> Flow<
    Result<(), ErrorModel>,
> {
    url_flow(config_path, a, i).and_then(
        |url: Option<Seq<char>>, j: int|
            qr_flow(url, a, j).and_then(
                |qr: Option<Seq<char>>, k: int|
                    effects::did_flow(
                        AskModel::WriteFile { path: issue_path, text: banner_of(url, qr) },
                        a,
                        k,
                    ).and_then(
                        |r: Result<(), Seq<char>>, m: int|
                            Flow::Done(
                                match r {
                                    Ok(_) => Ok(()),
                                    Err(e) => Err(ErrorModel::message(e)),
                                },
                                m,
                            ),
                    ),
            ),
    )
}

/// Writes what is shown.
pub fn run(s: &mut Script, config_path: &str, issue_path: &str) -> (r: Result<Result<(), Error>, Ask>)
    ensures
        effects::went(
            r,
            run_flow(config_path@, issue_path@, old(s).answers@, old(s).at as int),
            *old(s),
            *final(s),
        ),
{
    let url = read_dns_url(s, config_path)?;
    let qr = qr_of(s, &url)?;
    let u = match &url {
        Some(u) => Some(u.as_str()),
        None => None,
    };
    let q = match &qr {
        Some(q) => Some(q.as_str()),
        None => None,
    };
    let t = format_banner(u, q);
    match s.did(Ask::WriteFile { path: issue_path.to_owned(), text: t })? {
        Ok(_) => Ok(Ok(())),
        Err(e) => Ok(Err(Error::msg(e.as_str()))),
    }
}

} // verus!
