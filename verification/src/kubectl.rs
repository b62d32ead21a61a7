//! The `kubectl` program.
use vstd::prelude::*;

use crate::effects::{Answer, Ask, Flow, Queue, Script};
use crate::effects;
use crate::exec;
use crate::exec::{AsCmdError, CmdError, CmdErrorModel, CommandOutputModel, Failure};
use crate::json::{Doc, Entries, Json};
use crate::json;
use crate::model::Model;
use crate::text;

verus! {

/// How long `kubectl` may take.
pub const KUBECTL_SECS: u64 = 60;

/// `kubectl args`: what it printed, without white space around it.
pub open spec fn run_flow(args: Seq<Seq<char>>, a: Seq<Answer>, i: int) -> Flow<
    Result<Seq<char>, CmdErrorModel>,
> {
    effects::run_flow("kubectl"@, args, KUBECTL_SECS, None, Queue::Free, a, i).and_then(
        |r: Result<CommandOutputModel, CmdErrorModel>, j: int|
            Flow::Done(
                match r {
                    Err(e) => Err(e),
                    Ok(out) => match exec::checked_output("kubectl"@, args, out) {
                        Err(e) => Err(e),
                        Ok(stdout) => Ok(text::trimmed(stdout)),
                    },
                },
                j,
            ),
    )
}

/// `kubectl args`: what it printed, without white space around it.
pub fn run(s: &mut Script, args: &[&str]) -> (r: Result<Result<String, CmdError>, Ask>)
    ensures
        effects::went(
            r,
            run_flow(args.model(), old(s).answers@, old(s).at as int),
            *old(s),
            *final(s),
        ),
{
    match s.run("kubectl", args, KUBECTL_SECS, None, Queue::Free)? {
        Err(e) => Ok(Err(e)),
        Ok(out) => match exec::into_checked("kubectl", args, out) {
            Err(e) => Ok(Err(e)),
            Ok(stdout) => Ok(Ok(text::trim(stdout.as_str()).to_owned())),
        },
    }
}

/// `kubectl args` as a document.
pub open spec fn get_json_flow(args: Seq<Seq<char>>, a: Seq<Answer>, i: int) -> Flow<
    Result<Json, CmdErrorModel>,
> {
    run_flow(args, a, i).and_then(
        |r: Result<Seq<char>, CmdErrorModel>, j: int|
            Flow::Done(
                match r {
                    Err(e) => Err(e),
                    Ok(raw) => exec::json_result(exec::rendered("kubectl"@, args), raw),
                },
                j,
            ),
    )
}

/// `kubectl args` as a document.
pub fn get_json(s: &mut Script, args: &[&str]) -> (r: Result<Result<Json, CmdError>, Ask>)
    ensures
        effects::went(
            r,
            get_json_flow(args.model(), old(s).answers@, old(s).at as int),
            *old(s),
            *final(s),
        ),
{
    match run(s, args)? {
        Err(e) => Ok(Err(e)),
        Ok(raw) => {
            let cmd = exec::render("kubectl", args);
            Ok(exec::parse_json(cmd.as_str(), raw.as_str()))
        },
    }
}

/// A result where a missing object is a legitimate answer.
pub open spec fn missing_is_none(r: Result<Json, CmdErrorModel>) -> Result<
    Option<Json>,
    CmdErrorModel,
> {
    match r {
        Ok(v) => Ok(Some(v)),
        Err(e) => if e.kind_of() == Some(Failure::NotFound) {
            Ok(None)
        } else {
            Err(e)
        },
    }
}

/// `kubectl args` as a document, nothing when the object does not exist.
pub open spec fn get_opt_flow(args: Seq<Seq<char>>, a: Seq<Answer>, i: int) -> Flow<
    Result<Option<Json>, CmdErrorModel>,
> {
    get_json_flow(args, a, i).and_then(
        |r: Result<Json, CmdErrorModel>, j: int| Flow::Done(missing_is_none(r), j),
    )
}

/// `kubectl args` as a document, nothing when the object does not exist. An API
/// server that did not answer stays an error.
pub fn get_opt(s: &mut Script, args: &[&str]) -> (r: Result<Result<Option<Json>, CmdError>, Ask>)
    ensures
        effects::went(
            r,
            get_opt_flow(args.model(), old(s).answers@, old(s).at as int),
            *old(s),
            *final(s),
        ),
{
    match get_json(s, args)? {
        Ok(v) => Ok(Ok(Some(v))),
        Err(e) => {
            if e.is_not_found() {
                Ok(Ok(None))
            } else {
                Ok(Err(e))
            }
        },
    }
}

/// Whether a failure means "this object does not exist" rather than "the API
/// server did not answer".
pub fn is_not_found<E: AsCmdError>(e: &E) -> (r: bool)
    ensures
        r == (e.cmd_error() is Some && e.cmd_error()->0.kind_of() == Some(Failure::NotFound)),
{
    exec::is_not_found(e)
}

/// Piping a manifest to `kubectl verb -f -`.
pub open spec fn pipe_flow(verb: Seq<char>, manifest: Seq<char>, a: Seq<Answer>, i: int) -> Flow<
    Result<(), CmdErrorModel>,
> {
    let args = seq![verb, "-f"@, "-"@];
    effects::run_flow("kubectl"@, args, KUBECTL_SECS, Some(manifest), Queue::Free, a, i).and_then(
        |r: Result<CommandOutputModel, CmdErrorModel>, j: int|
            Flow::Done(
                match r {
                    Err(e) => Err(e),
                    Ok(out) => match exec::checked_output("kubectl"@, args, out) {
                        Err(e) => Err(e),
                        Ok(_) => Ok(()),
                    },
                },
                j,
            ),
    )
}

fn pipe_manifest(s: &mut Script, verb: &str, manifest: &str) -> (r: Result<
    Result<(), CmdError>,
    Ask,
>)
    ensures
        effects::went(
            r,
            pipe_flow(verb@, manifest@, old(s).answers@, old(s).at as int),
            *old(s),
            *final(s),
        ),
{
    let args: [&str; 3] = [verb, "-f", "-"];
    assert((&args).model() =~= seq![verb@, "-f"@, "-"@]);
    match s.run("kubectl", &args, KUBECTL_SECS, Some(manifest), Queue::Free)? {
        Err(e) => Ok(Err(e)),
        Ok(out) => match exec::into_checked("kubectl", &args, out) {
            Err(e) => Ok(Err(e)),
            Ok(_) => Ok(Ok(())),
        },
    }
}

/// Pipes a manifest to `kubectl apply -f -`.
pub fn apply(s: &mut Script, manifest: &str) -> (r: Result<Result<(), CmdError>, Ask>)
    ensures
        effects::went(
            r,
            pipe_flow("apply"@, manifest@, old(s).answers@, old(s).at as int),
            *old(s),
            *final(s),
        ),
{
    pipe_manifest(s, "apply", manifest)
}

/// Pipes a manifest to `kubectl create -f -`. `Failure::AlreadyExists` if it is
/// already there.
pub fn create(s: &mut Script, manifest: &str) -> (r: Result<Result<(), CmdError>, Ask>)
    ensures
        effects::went(
            r,
            pipe_flow("create"@, manifest@, old(s).answers@, old(s).at as int),
            *old(s),
            *final(s),
        ),
{
    pipe_manifest(s, "create", manifest)
}

/// Pipes a manifest to `kubectl replace -f -`. With a resource version in it,
/// `Failure::Conflict` if another writer got there first.
pub fn replace(s: &mut Script, manifest: &str) -> (r: Result<Result<(), CmdError>, Ask>)
    ensures
        effects::went(
            r,
            pipe_flow("replace"@, manifest@, old(s).answers@, old(s).at as int),
            *old(s),
            *final(s),
        ),
{
    pipe_manifest(s, "replace", manifest)
}

/// Writing a record: creating it or replacing it. Any other verb is refused.
pub open spec fn write_flow(verb: Seq<char>, manifest: Seq<char>, a: Seq<Answer>, i: int) -> Flow<
    Result<(), CmdErrorModel>,
> {
    if verb == "create"@ || verb == "replace"@ {
        pipe_flow(verb, manifest, a, i)
    } else {
        Flow::Done(Err(CmdErrorModel::Forbidden { cmd: "kubectl "@ + verb + " -f -"@ }), i)
    }
}

/// Writes a record: creates it or replaces it. Any other verb is refused.
pub fn write(s: &mut Script, verb: &str, manifest: &str) -> (r: Result<Result<(), CmdError>, Ask>)
    ensures
        effects::went(
            r,
            write_flow(verb@, manifest@, old(s).answers@, old(s).at as int),
            *old(s),
            *final(s),
        ),
{
    if text::same(verb, "create") {
        create(s, manifest)
    } else if text::same(verb, "replace") {
        replace(s, manifest)
    } else {
        Ok(Err(CmdError::Forbidden { cmd: text::cat3("kubectl ", verb, " -f -") }))
    }
}

// ── Secrets ──────────────────────────────────────────────────────────────────

/// The bytes that a text spells in standard base64, or the sentence it is
/// refused with.
pub uninterp spec fn from_base64(s: Seq<char>) -> Result<Seq<u8>, Seq<char>>;

/// Bytes in standard base64.
pub uninterp spec fn to_base64(b: Seq<u8>) -> Seq<char>;

/// A decoded base64 text with its bytes and its complaint as sequences.
pub open spec fn decoded(r: Result<Vec<u8>, String>) -> Result<Seq<u8>, Seq<char>> {
    match r {
        Ok(b) => Ok(b@),
        Err(e) => Err(e@),
    }
}

/// `base64::engine::general_purpose::STANDARD.decode`: the standard alphabet
/// with padding. The result depends on the text alone.
#[verifier::external_body]
fn base64_decode(s: &str) -> (r: Result<Vec<u8>, String>)
    ensures
        decoded(r) == from_base64(s@),
{
    base64::Engine::decode(&base64::engine::general_purpose::STANDARD, s.as_bytes()).map_err(
        |e| e.to_string(),
    )
}

/// Whether a text spells exactly these bytes in base64.
pub open spec fn spells(s: Seq<char>, b: Seq<u8>) -> bool {
    from_base64(s) == Ok::<Seq<u8>, Seq<char>>(b)
}

/// `base64::engine::general_purpose::STANDARD.encode`: the standard alphabet
/// with padding. Decoding the text gives the bytes back.
#[verifier::external_body]
fn base64_encode(b: &[u8]) -> (r: String)
    ensures
        r@ == to_base64(b@),
        spells(r@, b@),
{
    base64::Engine::encode(&base64::engine::general_purpose::STANDARD, b)
}

/// The text that bytes encode.
pub open spec fn text_in(b: Seq<u8>) -> Option<Seq<char>> {
    if vstd::utf8::valid_utf8(b) {
        Some(vstd::utf8::decode_utf8(b))
    } else {
        None
    }
}

/// `String::from_utf8`: the text that bytes encode, none when they encode no
/// text.
#[verifier::external_body]
fn utf8(b: Vec<u8>) -> (r: Option<String>)
    ensures
        text::opt_text(r) == text_in(b@),
{
    String::from_utf8(b).ok()
}

/// What a secret holds under a key: text in base64, without white space around
/// it.
pub open spec fn secret_value(cmd: Seq<char>, key: Seq<char>, v: Json) -> Result<
    Seq<char>,
    CmdErrorModel,
> {
    match json::text_of(v) {
        None => Err(
            CmdErrorModel::Parse { cmd, detail: "key "@ + key + " is not a string"@ },
        ),
        Some(b64) => match from_base64(b64) {
            Err(e) => Err(
                CmdErrorModel::Parse { cmd, detail: "key "@ + key + " is not base64: "@ + e },
            ),
            Ok(bytes) => match text_in(bytes) {
                None => Err(CmdErrorModel::Parse { cmd, detail: "key "@ + key + " is not UTF-8"@ }),
                Some(t) => Ok(text::trimmed(t)),
            },
        },
    }
}

fn read_secret_value(cmd: &str, key: &str, v: &Json) -> (r: Result<String, CmdError>)
    ensures
        r.model() == secret_value(cmd@, key@, *v),
{
    let b64 = match v.as_str() {
        Some(t) => t,
        None => {
            let detail = text::cat3("key ", key, " is not a string");
            return Err(CmdError::parse(cmd, detail.as_str()));
        },
    };
    let bytes = match base64_decode(b64) {
        Ok(b) => b,
        Err(e) => {
            let detail = text::cat4("key ", key, " is not base64: ", e.as_str());
            return Err(CmdError::parse(cmd, detail.as_str()));
        },
    };
    match utf8(bytes) {
        Some(t) => {
            Ok(text::trim(t.as_str()).to_owned())
        },
        None => {
            let detail = text::cat3("key ", key, " is not UTF-8");
            Err(CmdError::parse(cmd, detail.as_str()))
        },
    }
}

/// The decoded entries of a secret, or the complaint about the first that cannot
/// be read.
pub open spec fn secret_entries(cmd: Seq<char>, d: Seq<(String, Json)>) -> Result<
    Seq<(Seq<char>, Seq<char>)>,
    CmdErrorModel,
>
    decreases d.len(),
{
    if d.len() == 0 {
        Ok(seq![])
    } else {
        match secret_entries(cmd, d.drop_last()) {
            Err(e) => Err(e),
            Ok(s) => match secret_value(cmd, d.last().0@, d.last().1) {
                Err(e) => Err(e),
                Ok(t) => Ok(s.push((d.last().0@, t))),
            },
        }
    }
}

proof fn lemma_secret_entries_err(cmd: Seq<char>, d: Seq<(String, Json)>, i: int)
    requires
        0 <= i <= d.len(),
        secret_entries(cmd, d.take(i)) is Err,
    ensures
        secret_entries(cmd, d) == secret_entries(cmd, d.take(i)),
    decreases d.len() - i,
{
    if i < d.len() {
        assert(d.take(i + 1).drop_last() =~= d.take(i));
        lemma_secret_entries_err(cmd, d, i + 1);
    } else {
        assert(d.take(i) =~= d);
    }
}

fn read_secret_entries(cmd: &str, d: &Vec<(String, Json)>) -> (r: Result<
    Vec<(String, String)>,
    CmdError,
>)
    ensures
        r.model() == secret_entries(cmd@, d@),
{
    let mut out: Vec<(String, String)> = Vec::new();
    let mut i: usize = 0;
    assert(d@.take(0) =~= seq![]);
    assert(out.model() =~= seq![]);
    while i < d.len()
        invariant
            i <= d@.len(),
            secret_entries(cmd@, d@.take(i as int)) == Ok::<
                Seq<(Seq<char>, Seq<char>)>,
                CmdErrorModel,
            >(out.model()),
        decreases d@.len() - i,
    {
        assert(d@.take(i + 1).drop_last() =~= d@.take(i as int));
        let ghost before = out.model();
        match read_secret_value(cmd, d[i].0.as_str(), &d[i].1) {
            Ok(t) => {
                out.push((d[i].0.clone(), t));
                assert(out.model() =~= before.push((d@[i as int].0@, t@)));
            },
            Err(e) => {
                proof {
                    lemma_secret_entries_err(cmd@, d@, i + 1);
                }
                return Err(e);
            },
        }
        i += 1;
    }
    assert(d@.take(d@.len() as int) =~= d@);
    Ok(out)
}

/// The decoded data of a secret's document.
pub open spec fn secret_data(cmd: Seq<char>, v: Json) -> Result<
    Seq<(Seq<char>, Seq<char>)>,
    CmdErrorModel,
> {
    match json::field(v, "data"@) {
        Some(Json::Dict(d)) => secret_entries(cmd, d@),
        _ => Ok(seq![]),
    }
}

/// The command a complaint about a secret names.
pub open spec fn secret_cmd(name: Seq<char>, ns: Seq<char>) -> Seq<char> {
    "kubectl get secret "@ + name + " -n "@ + ns
}

/// A secret's decoded data: nothing when it does not exist, an error when it
/// could not be read.
pub open spec fn get_secret_flow(name: Seq<char>, ns: Seq<char>, a: Seq<Answer>, i: int) -> Flow<
    Result<Option<Seq<(Seq<char>, Seq<char>)>>, CmdErrorModel>,
> {
    get_opt_flow(seq!["get"@, "secret"@, name, "-n"@, ns, "-o"@, "json"@], a, i).and_then(
        |r: Result<Option<Json>, CmdErrorModel>, j: int|
            Flow::Done(
                match r {
                    Err(e) => Err(e),
                    Ok(None) => Ok(None),
                    Ok(Some(v)) => match secret_data(secret_cmd(name, ns), v) {
                        Err(e) => Err(e),
                        Ok(d) => Ok(Some(d)),
                    },
                },
                j,
            ),
    )
}

/// A secret's decoded data: nothing when it does not exist, an error when it
/// could not be read. The two are never confused.
pub fn get_secret(s: &mut Script, name: &str, ns: &str) -> (r: Result<
    Result<Option<Vec<(String, String)>>, CmdError>,
    Ask,
>)
    ensures
        effects::went(
            r,
            get_secret_flow(name@, ns@, old(s).answers@, old(s).at as int),
            *old(s),
            *final(s),
        ),
{
    let args: [&str; 7] = ["get", "secret", name, "-n", ns, "-o", "json"];
    assert((&args).model() =~= seq!["get"@, "secret"@, name@, "-n"@, ns@, "-o"@, "json"@]);
    match get_opt(s, &args)? {
        Err(e) => Ok(Err(e)),
        Ok(None) => Ok(Ok(None)),
        Ok(Some(v)) => {
            let cmd = text::cat4("kubectl get secret ", name, " -n ", ns);
            match v.get("data") {
                Some(Json::Dict(d)) => match read_secret_entries(cmd.as_str(), d) {
                    Err(e) => Ok(Err(e)),
                    Ok(entries) => Ok(Ok(Some(entries))),
                },
                _ => {
                    let none: Vec<(String, String)> = Vec::new();
                    assert(none.model() =~= seq![]);
                    Ok(Ok(Some(none)))
                },
            }
        },
    }
}

/// Texts in base64, each under its key.
pub open spec fn encoded_docs(data: Seq<(Seq<char>, Seq<char>)>) -> Seq<(Seq<char>, Doc)> {
    Seq::new(
        data.len(),
        |i: int| (data[i].0, Doc::Text(to_base64(vstd::utf8::encode_utf8(data[i].1)))),
    )
}

/// Texts, each under its key.
pub open spec fn plain_docs(data: Seq<(Seq<char>, Seq<char>)>) -> Seq<(Seq<char>, Doc)> {
    Seq::new(data.len(), |i: int| (data[i].0, Doc::Text(data[i].1)))
}

/// A dictionary of texts.
pub fn text_dict(data: &Vec<(String, String)>) -> (r: Json)
    ensures
        json::doc(r) == Doc::Dict(plain_docs(data.model())),
{
    let mut e = Entries::new();
    let mut i: usize = 0;
    while i < data.len()
        invariant
            i <= data@.len(),
            e.docs() == plain_docs(data.model()).take(i as int),
        decreases data@.len() - i,
    {
        e.put(data[i].0.as_str(), Json::text(data[i].1.as_str()));
        assert(e.docs() =~= plain_docs(data.model()).take(i + 1));
        i += 1;
    }
    assert(plain_docs(data.model()).take(data@.len() as int) =~= plain_docs(data.model()));
    e.done()
}

fn encoded_dict(data: &Vec<(String, String)>) -> (r: Json)
    ensures
        json::doc(r) == Doc::Dict(encoded_docs(data.model())),
{
    let mut e = Entries::new();
    let mut i: usize = 0;
    while i < data.len()
        invariant
            i <= data@.len(),
            e.docs() == encoded_docs(data.model()).take(i as int),
        decreases data@.len() - i,
    {
        let b64 = base64_encode(data[i].1.as_str().as_bytes());
        e.put(data[i].0.as_str(), Json::text(b64.as_str()));
        assert(e.docs() =~= encoded_docs(data.model()).take(i + 1));
        i += 1;
    }
    assert(encoded_docs(data.model()).take(data@.len() as int) =~= encoded_docs(data.model()));
    e.done()
}

/// The manifest of an opaque secret.
pub open spec fn secret_doc(
    name: Seq<char>,
    ns: Seq<char>,
    data: Seq<(Seq<char>, Seq<char>)>,
    labels: Seq<(Seq<char>, Seq<char>)>,
) -> Doc {
    Doc::Dict(
        seq![
            ("apiVersion"@, Doc::Text("v1"@)),
            ("kind"@, Doc::Text("Secret"@)),
            (
                "metadata"@,
                Doc::Dict(
                    seq![
                        ("name"@, Doc::Text(name)),
                        ("namespace"@, Doc::Text(ns)),
                        ("labels"@, Doc::Dict(plain_docs(labels))),
                    ],
                ),
            ),
            ("data"@, Doc::Dict(encoded_docs(data))),
            ("type"@, Doc::Text("Opaque"@)),
        ],
    )
}

/// The manifest of an opaque secret.
pub fn secret_manifest(
    name: &str,
    ns: &str,
    data: &Vec<(String, String)>,
    labels: &Vec<(String, String)>,
) -> (r: Json)
    ensures
        json::doc(r) == secret_doc(name@, ns@, data.model(), labels.model()),
{
    let mut meta = Entries::new();
    meta.put("name", Json::text(name));
    meta.put("namespace", Json::text(ns));
    meta.put("labels", text_dict(labels));
    assert(meta.docs() =~= seq![
        ("name"@, Doc::Text(name@)),
        ("namespace"@, Doc::Text(ns@)),
        ("labels"@, Doc::Dict(plain_docs(labels.model()))),
    ]);
    let mut e = Entries::new();
    e.put("apiVersion", Json::text("v1"));
    e.put("kind", Json::text("Secret"));
    e.put("metadata", meta.done());
    e.put("data", encoded_dict(data));
    e.put("type", Json::text("Opaque"));
    let r = e.done();
    assert(json::doc(r)->Dict_0 =~= secret_doc(name@, ns@, data.model(), labels.model())->Dict_0);
    r
}

/// Creates or replaces an opaque secret.
pub fn apply_secret(
    s: &mut Script,
    name: &str,
    ns: &str,
    data: &Vec<(String, String)>,
    labels: &Vec<(String, String)>,
) -> (r: Result<Result<(), CmdError>, Ask>)
    ensures
        effects::went(
            r,
            pipe_flow(
                "apply"@,
                json::rendered(secret_doc(name@, ns@, data.model(), labels.model())),
                old(s).answers@,
                old(s).at as int,
            ),
            *old(s),
            *final(s),
        ),
{
    let manifest = json::render(&secret_manifest(name, ns, data, labels));
    apply(s, manifest.as_str())
}

/// What is written into a secret under a key is what is read from it, without
/// white space around it.
pub proof fn secret_reads_back(cmd: Seq<char>, key: Seq<char>, value: Seq<char>, stored: String)
    requires
        stored@ == to_base64(vstd::utf8::encode_utf8(value)),
        spells(stored@, vstd::utf8::encode_utf8(value)),
    ensures
        secret_value(cmd, key, Json::Text(stored)) == Ok::<Seq<char>, CmdErrorModel>(
            text::trimmed(value),
        ),
{
    vstd::utf8::encode_utf8_valid_utf8(value);
    vstd::utf8::encode_utf8_decode_utf8(value);
}

// ── Nodes ────────────────────────────────────────────────────────────────────

/// Every node of the cluster.
pub open spec fn get_nodes_flow(a: Seq<Answer>, i: int) -> Flow<Result<Seq<Json>, CmdErrorModel>> {
    get_json_flow(seq!["get"@, "nodes"@, "-o"@, "json"@], a, i).and_then(
        |r: Result<Json, CmdErrorModel>, j: int|
            Flow::Done(
                match r {
                    Err(e) => Err(e),
                    Ok(v) => match json::items_at(v, "items"@) {
                        Some(l) => Ok(l),
                        None => Err(
                            CmdErrorModel::Parse {
                                cmd: "kubectl get nodes -o json"@,
                                detail: "no items list"@,
                            },
                        ),
                    },
                },
                j,
            ),
    )
}

/// Every node of the cluster.
pub fn get_nodes(s: &mut Script) -> (r: Result<Result<Vec<Json>, CmdError>, Ask>)
    ensures
        effects::went(r, get_nodes_flow(old(s).answers@, old(s).at as int), *old(s), *final(s)),
{
    let args: [&str; 4] = ["get", "nodes", "-o", "json"];
    assert((&args).model() =~= seq!["get"@, "nodes"@, "-o"@, "json"@]);
    match get_json(s, &args)? {
        Err(e) => Ok(Err(e)),
        Ok(v) => match take_field(v, "items") {
            Some(Json::List(l)) => {
                assert(l.model() =~= l@);
                Ok(Ok(l))
            },
            _ => Ok(Err(CmdError::parse("kubectl get nodes -o json", "no items list"))),
        },
    }
}

/// What a document holds under `key`, taken out of it.
pub fn take_field(j: Json, key: &str) -> (r: Option<Json>)
    ensures
        r == json::field(j, key@),
{
    match j {
        Json::Dict(d) => {
            let whole = Json::Dict(d);
            match whole.place(key) {
                Some(i) => match whole {
                    Json::Dict(mut d) => {
                        let (_, v) = d.swap_remove(i);
                        Some(v)
                    },
                    _ => None,
                },
                None => None,
            }
        },
        _ => None,
    }
}

/// Whether an address entry is an internal IPv6 address.
pub open spec fn internal_v6(e: Json) -> bool {
    json::text_at(e, "type"@) == Some("InternalIP"@) && json::text_at(e, "address"@) is Some
        && json::text_at(e, "address"@)->0.contains(':')
}

/// The address of the first internal IPv6 entry.
pub open spec fn first_v6(l: Seq<Json>) -> Option<Seq<char>>
    decreases l.len(),
{
    if l.len() == 0 {
        None
    } else if internal_v6(l[0]) {
        json::text_at(l[0], "address"@)
    } else {
        first_v6(l.drop_first())
    }
}

/// A node's IPv6 cluster address.
pub open spec fn node_address(node: Json) -> Option<Seq<char>> {
    match json::field(node, "status"@) {
        Some(st) => match json::items_at(st, "addresses"@) {
            Some(l) => first_v6(l),
            None => None,
        },
        None => None,
    }
}

/// A node's IPv6 cluster address. IPv6 only: an IPv4 address is one that nothing
/// in the cluster can be reached on.
pub fn cluster_ipv6(node: &Json) -> (r: Option<String>)
    ensures
        text::opt_text(r) == node_address(*node),
{
    let l = match node.get("status") {
        Some(st) => match st.list_at("addresses") {
            Some(l) => l,
            None => return None,
        },
        None => return None,
    };
    let mut i: usize = 0;
    assert(l@.skip(0) =~= l@);
    while i < l.len()
        invariant
            i <= l@.len(),
            node_address(*node) == first_v6(l@.skip(i as int)),
        decreases l@.len() - i,
    {
        let ghost rest = l@.skip(i as int);
        assert(rest[0] == l@[i as int]);
        if l[i].says("type", "InternalIP") {
            if let Some(addr) = l[i].str_at("address") {
                if text::contains_char(addr, ':') {
                    return Some(addr.to_owned());
                }
            }
        }
        assert(rest.drop_first() =~= l@.skip(i + 1));
        i += 1;
    }
    None
}

/// The IPv6 addresses of the nodes other than the one at `self_ip`, in order.
pub open spec fn peers_of(nodes: Seq<Json>, self_ip: Seq<char>) -> Seq<Seq<char>>
    decreases nodes.len(),
{
    if nodes.len() == 0 {
        seq![]
    } else {
        let before = peers_of(nodes.drop_last(), self_ip);
        match node_address(nodes.last()) {
            Some(addr) => if addr != self_ip {
                before.push(addr)
            } else {
                before
            },
            None => before,
        }
    }
}

/// Every other node's IPv6 cluster address.
pub fn peer_ipv6(nodes: &Vec<Json>, self_ip: &str) -> (r: Vec<String>)
    ensures
        text::texts(r@) == peers_of(nodes@, self_ip@),
{
    let mut out: Vec<String> = Vec::new();
    let mut i: usize = 0;
    assert(nodes@.take(0) =~= seq![]);
    assert(text::texts(out@) =~= seq![]);
    while i < nodes.len()
        invariant
            i <= nodes@.len(),
            text::texts(out@) == peers_of(nodes@.take(i as int), self_ip@),
        decreases nodes@.len() - i,
    {
        assert(nodes@.take(i + 1).drop_last() =~= nodes@.take(i as int));
        let ghost before = text::texts(out@);
        if let Some(addr) = cluster_ipv6(&nodes[i]) {
            if !text::same(addr.as_str(), self_ip) {
                out.push(addr);
                assert(text::texts(out@) =~= before.push(addr@));
            }
        }
        i += 1;
    }
    assert(nodes@.take(nodes@.len() as int) =~= nodes@);
    out
}

/// Whether a node is called `name`.
pub open spec fn is_called(node: Json, name: Seq<char>) -> bool {
    match json::field(node, "metadata"@) {
        Some(m) => json::text_at(m, "name"@) == Some(name),
        None => false,
    }
}

/// The IPv6 cluster address of the first node called `name`.
pub open spec fn address_of(nodes: Seq<Json>, name: Seq<char>) -> Option<Seq<char>>
    decreases nodes.len(),
{
    if nodes.len() == 0 {
        None
    } else if is_called(nodes[0], name) {
        node_address(nodes[0])
    } else {
        address_of(nodes.drop_first(), name)
    }
}

/// The IPv6 cluster address of the node called `name`.
pub fn node_ipv6(nodes: &Vec<Json>, name: &str) -> (r: Option<String>)
    ensures
        text::opt_text(r) == address_of(nodes@, name@),
{
    let mut i: usize = 0;
    assert(nodes@.skip(0) =~= nodes@);
    while i < nodes.len()
        invariant
            i <= nodes@.len(),
            address_of(nodes@, name@) == address_of(nodes@.skip(i as int), name@),
        decreases nodes@.len() - i,
    {
        let ghost rest = nodes@.skip(i as int);
        assert(rest[0] == nodes@[i as int]);
        let called = match nodes[i].get("metadata") {
            Some(m) => m.says("name", name),
            None => false,
        };
        if called {
            return cluster_ipv6(&nodes[i]);
        }
        assert(rest.drop_first() =~= nodes@.skip(i + 1));
        i += 1;
    }
    None
}

/// No node is its own peer.
pub proof fn never_its_own_peer(nodes: Seq<Json>, self_ip: Seq<char>)
    ensures
        !peers_of(nodes, self_ip).contains(self_ip),
    decreases nodes.len(),
{
    if nodes.len() > 0 {
        never_its_own_peer(nodes.drop_last(), self_ip);
        let before = peers_of(nodes.drop_last(), self_ip);
        if peers_of(nodes, self_ip).contains(self_ip) {
            let k = choose|k: int|
                0 <= k < peers_of(nodes, self_ip).len() && peers_of(nodes, self_ip)[k] == self_ip;
            if k < before.len() {
                assert(before[k] == self_ip);
            }
        }
    }
}

/// Nothing is taken for missing unless the API server said so.
pub proof fn only_the_server_says_it_is_missing(r: Result<Json, CmdErrorModel>)
    ensures
        missing_is_none(r) == Ok::<Option<Json>, CmdErrorModel>(None) <==> (r matches Err(e)
            && e.kind_of() == Some(Failure::NotFound)),
{
}

} // verus!
