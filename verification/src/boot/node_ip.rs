//! The addresses that this machine has in the cluster: always one of each kind.
use vstd::prelude::*;

use crate::effects;
use crate::effects::{Answer, Ask, AskModel, Flow, Script};
use crate::error::{Error, ErrorModel};
use crate::exec::{CmdErrorModel, CommandOutputModel};
use crate::host;
use crate::model::Model;
use crate::text;

verus! {

/// How often the address is looked for.
pub const DEFAULT_MAX_ATTEMPTS: u32 = 30;

/// How long to wait in between.
pub const DEFAULT_RETRY_DELAY_SECS: u64 = 10;

/// How often the address is looked for, as the environment says.
pub fn max_attempts(env: &Option<String>) -> (r: u32)
    ensures
        r == (match env.model() {
            Some(t) => match text::unsigned_value(t, u32::MAX as nat) {
                Some(n) => n as u32,
                None => DEFAULT_MAX_ATTEMPTS,
            },
            None => DEFAULT_MAX_ATTEMPTS,
        }),
{
    match env {
        Some(t) => match text::parse_unsigned(t.as_str(), u32::MAX as u64) {
            Some(n) => n as u32,
            None => DEFAULT_MAX_ATTEMPTS,
        },
        None => DEFAULT_MAX_ATTEMPTS,
    }
}

/// How long to wait in between, as the environment says.
pub fn retry_delay(env: &Option<String>) -> (r: u64)
    ensures
        r == (match env.model() {
            Some(t) => match text::unsigned_value(t, u64::MAX as nat) {
                Some(n) => n as u64,
                None => DEFAULT_RETRY_DELAY_SECS,
            },
            None => DEFAULT_RETRY_DELAY_SECS,
        }),
{
    match env {
        Some(t) => match text::parse_unsigned(t.as_str(), u64::MAX) {
            Some(n) => n,
            None => DEFAULT_RETRY_DELAY_SECS,
        },
        None => DEFAULT_RETRY_DELAY_SECS,
    }
}

/// Where `p` begins first at or behind `i`; the length when it does not.
pub open spec fn first_at(s: Seq<char>, p: Seq<char>, i: int) -> int
    decreases s.len() - i,
{
    if i >= s.len() {
        s.len() as int
    } else if text::at(s, p, i) {
        i
    } else {
        first_at(s, p, i + 1)
    }
}

/// The part behind the first `src `, up to the second.
pub open spec fn behind_src(t: Seq<char>) -> Option<Seq<char>> {
    let p = "src "@;
    let i = first_at(t, p, 0);
    if i < t.len() {
        let from = i + p.len();
        Some(t.subrange(from, first_at(t, p, from)))
    } else {
        None
    }
}

/// The address of this machine on the way that `ip route get` prints.
pub open spec fn src_in(t: Seq<char>) -> Option<Seq<char>> {
    match behind_src(t) {
        Some(rest) => {
            let w = text::words_of(rest);
            if w.len() > 0 {
                Some(w[0])
            } else {
                None
            }
        },
        None => None,
    }
}

fn find_at(s: &str, p: &str, from: usize) -> (r: usize)
    requires
        from <= s@.len(),
        p@.len() > 0,
    ensures
        r == first_at(s@, p@, from as int),
        from <= r <= s@.len(),
        r < s@.len() ==> r + p@.len() <= s@.len(),
{
    let n: usize = s.unicode_len();
    let mut i: usize = from;
    while i < n
        invariant
            from <= i <= n,
            n == s@.len(),
            first_at(s@, p@, from as int) == first_at(s@, p@, i as int),
        decreases n - i,
    {
        if text::starts_with(s.substring_char(i, n), p) {
            assert(text::at(s@, p@, i as int)) by {
                let rest = s@.subrange(i as int, n as int);
                assert(text::begins(rest, p@));
                assert(rest.subrange(0, p@.len() as int) =~= s@.subrange(
                    i as int,
                    i + p@.len(),
                ));
            }
            return i;
        }
        assert(!text::at(s@, p@, i as int)) by {
            if text::at(s@, p@, i as int) {
                let rest = s@.subrange(i as int, n as int);
                assert(rest.subrange(0, p@.len() as int) =~= s@.subrange(
                    i as int,
                    i + p@.len(),
                ));
                assert(text::begins(rest, p@));
            }
        }
        i += 1;
    }
    i
}

/// The address of this machine on the way that `ip route get` prints.
pub fn parse_src_ip(route_get_output: &str) -> (r: Option<String>)
    ensures
        r.model() == src_in(route_get_output@),
{
    proof {
        reveal_strlit("src ");
    }
    let n: usize = route_get_output.unicode_len();
    let i = find_at(route_get_output, "src ", 0);
    if i >= n {
        return None;
    }
    let from: usize = i + 4;
    let to = find_at(route_get_output, "src ", from);
    let rest = route_get_output.substring_char(from, to);
    let w = text::words(rest);
    let ghost v = text::views(w@);
    if w.len() == 0 {
        return None;
    }
    assert(v[0] == w@[0]@);
    Some(w[0].to_owned())
}

/// The line that tells the cluster both addresses.
pub open spec fn line_of(v6: Seq<char>, v4: Seq<char>) -> Seq<char> {
    "node-ip: "@ + v6 + ","@ + v4 + "\n"@
}

/// The line that tells the cluster both addresses.
pub fn node_ip_line(private_ipv6: &str, ipv4: &str) -> (r: String)
    ensures
        r@ == line_of(private_ipv6@, ipv4@),
{
    text::cat5("node-ip: ", private_ipv6, ",", ipv4, "\n")
}

/// Looking for this machine's address once.
pub open spec fn detect_flow(a: Seq<Answer>, i: int) -> Flow<Option<Seq<char>>> {
    host::run_cmd_flow(
        "ip"@,
        seq!["-4"@, "route"@, "get"@, "1.1.1.1"@],
        host::RUN_CMD_SECS,
        a,
        i,
    ).and_then(
        |r: Result<CommandOutputModel, CmdErrorModel>, j: int|
            Flow::Done(
                match r {
                    Ok(out) => if out.success {
                        src_in(out.stdout)
                    } else {
                        None
                    },
                    Err(_) => None,
                },
                j,
            ),
    )
}

fn detect_ipv4(s: &mut Script) -> (r: Result<Option<String>, Ask>)
    ensures
        effects::went(r, detect_flow(old(s).answers@, old(s).at as int), *old(s), *final(s)),
{
    let args: [&str; 4] = ["-4", "route", "get", "1.1.1.1"];
    assert((&args).model() =~= seq!["-4"@, "route"@, "get"@, "1.1.1.1"@]);
    match host::run_cmd(s, "ip", &args)? {
        Ok(out) => {
            if out.success {
                Ok(parse_src_ip(out.stdout.as_str()))
            } else {
                Ok(None)
            }
        },
        Err(_) => Ok(None),
    }
}

/// Looking for this machine's address, from the `k`th time on.
pub open spec fn look_flow(k: int, attempts: int, delay: u64, a: Seq<Answer>, i: int) -> Flow<
    Option<Seq<char>>,
>
    decreases attempts - k,
{
    if k >= attempts {
        Flow::Done(None, i)
    } else {
        detect_flow(a, i).and_then(
            |o: Option<Seq<char>>, j: int|
                match o {
                    Some(v) => Flow::Done(Some(v), j),
                    None => if k + 1 < attempts {
                        effects::done_flow(AskModel::Sleep { secs: delay }, a, j).and_then(
                            |u: (), m: int| look_flow(k + 1, attempts, delay, a, m),
                        )
                    } else {
                        Flow::Done(None, j)
                    },
                },
        )
    }
}

fn look(s: &mut Script, attempts: u32, delay: u64) -> (r: Result<Option<String>, Ask>)
    ensures
        effects::went(
            r,
            look_flow(0, attempts as int, delay, old(s).answers@, old(s).at as int),
            *old(s),
            *final(s),
        ),
{
    let mut k: u32 = 0;
    while k < attempts
        invariant
            k <= attempts,
            s.answers == old(s).answers,
            look_flow(0, attempts as int, delay, s.answers@, old(s).at as int) == look_flow(
                k as int,
                attempts as int,
                delay,
                s.answers@,
                s.at as int,
            ),
        decreases attempts - k,
    {
        if let Some(v) = detect_ipv4(s)? {
            return Ok(Some(v));
        }
        if k < attempts - 1 {
            s.sleep(delay)?;
        }
        k += 1;
    }
    Ok(None)
}

/// That no address was found.
pub open spec fn no_route(attempts: u32) -> ErrorModel {
    ErrorModel::message(
        "no IPv4 route found after "@ + text::decimal(attempts as nat)
            + " attempts; refusing to write a node-ip that would mismatch k3s's dual-stack cluster-cidr and crash-loop the server"@,
    )
}

/// Where the addresses are written.
pub open spec fn config_path(root: Seq<char>) -> Seq<char> {
    crate::paths::below(root, "etc/rancher/k3s/config.yaml"@)
}

/// Writing the addresses.
pub open spec fn run_flow(
    v6: Seq<char>,
    root: Seq<char>,
    attempts: u32,
    delay: u64,
    a: Seq<Answer>,
    i: int,
) -> Flow<Result<(), ErrorModel>> {
    look_flow(0, attempts as int, delay, a, i).and_then(
        |o: Option<Seq<char>>, j: int|
            match o {
                None => Flow::Done(Err(no_route(attempts)), j),
                Some(v4) => effects::did_flow(
                    AskModel::ReplaceFile { path: config_path(root), text: line_of(v6, v4) },
                    a,
                    j,
                ).and_then(
                    |r: Result<(), Seq<char>>, k: int|
                        Flow::Done(
                            match r {
                                Ok(_) => Ok(()),
                                Err(e) => Err(ErrorModel::message(e)),
                            },
                            k,
                        ),
                ),
            },
    )
}

/// Writes the addresses, once this machine has one of each kind.
pub fn run(s: &mut Script, private_ipv6: &str, root: &str, attempts: u32, delay_secs: u64) -> (r: Result<
    Result<(), Error>,
    Ask,
>)
    ensures
        effects::went(
            r,
            run_flow(
                private_ipv6@,
                root@,
                attempts,
                delay_secs,
                old(s).answers@,
                old(s).at as int,
            ),
            *old(s),
            *final(s),
        ),
{
    let v4 = match look(s, attempts, delay_secs)? {
        Some(v) => v,
        None => {
            let n = text::decimal_of(attempts as u64);
            let why = text::cat3(
                "no IPv4 route found after ",
                n.as_str(),
                " attempts; refusing to write a node-ip that would mismatch k3s's dual-stack cluster-cidr and crash-loop the server",
            );
            return Ok(Err(Error::msg(why.as_str())));
        },
    };
    let path = crate::paths::join(root, "etc/rancher/k3s/config.yaml");
    let t = node_ip_line(private_ipv6, v4.as_str());
    match s.did(Ask::ReplaceFile { path, text: t })? {
        Ok(_) => Ok(Ok(())),
        Err(e) => Ok(Err(Error::msg(e.as_str()))),
    }
}

/// Without an address of the old kind nothing is written.
pub proof fn nothing_is_written_without_both_addresses(
    v6: Seq<char>,
    root: Seq<char>,
    attempts: u32,
    delay: u64,
    a: Seq<Answer>,
    i: int,
    j: int,
)
    requires
        look_flow(0, attempts as int, delay, a, i) == Flow::<Option<Seq<char>>>::Done(None, j),
    ensures
        run_flow(v6, root, attempts, delay, a, i) == Flow::<Result<(), ErrorModel>>::Done(
            Err(no_route(attempts)),
            j,
        ),
{
}

} // verus!
