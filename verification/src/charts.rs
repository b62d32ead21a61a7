//! The catalogs that apps come from: which there are, and keeping copies of them.
use vstd::prelude::*;

use crate::effects;
use crate::effects::{Answer, Ask, AskModel, Flow, Queue, Script};
use crate::error::{Error, ErrorModel};
use crate::exec::{CmdError, CmdErrorModel, CommandOutputModel};
use crate::heal::fleet;
use crate::host;
use crate::http;
use crate::json;
use crate::json::{Doc, Json};
use crate::kubectl;
use crate::model::Model;
use crate::paths;
use crate::runtime::{Requirement, Scope, Tick, TickModel};
use crate::text;
use crate::time::{Duration, NANOS_PER_SEC};

verus! {

/// Where the catalogs that were added are kept.
pub const REPO_CM: &'static str = "yolab-chart-repos";

/// The namespace of that.
pub const REPO_NS: &'static str = "kube-system";

/// Where the copies are kept.
pub const CACHE_DIR: &'static str = "/var/lib/yolab/charts";

/// The catalog that is always there.
pub const OFFICIAL: &'static str = "official";

/// The apps that the owner put there.
pub const CUSTOM: &'static str = "custom";

/// Where the official catalog is published.
pub const OFFICIAL_URL: &'static str = "https://raw.githubusercontent.com/DemyCode/yolab/main/catalog.yaml";

// ── Which catalogs there are ─────────────────────────────────────────────────

/// A catalog.
#[derive(Debug)]
pub struct ChartRepo {
    pub name: String,
    pub url: String,
    pub removable: bool,
}

/// A `ChartRepo` with its texts as characters.
pub struct ChartRepoModel {
    pub name: Seq<char>,
    pub url: Seq<char>,
    pub removable: bool,
}

impl Model for ChartRepo {
    type M = ChartRepoModel;

    open spec fn model(&self) -> ChartRepoModel {
        ChartRepoModel { name: self.name@, url: self.url@, removable: self.removable }
    }
}

/// Where the official catalog is published: where the environment says, or the
/// usual place.
pub open spec fn published_at(env: Option<Seq<char>>) -> Seq<char> {
    match env {
        Some(u) => u,
        None => OFFICIAL_URL@,
    }
}

/// Where the official catalog is published.
pub fn official_url(env: Option<&str>) -> (r: String)
    ensures
        r@ == published_at(env.model()),
{
    match env {
        Some(u) => u.to_owned(),
        None => OFFICIAL_URL.to_owned(),
    }
}

/// The first `n` entries of a dictionary, when all of them are texts.
pub open spec fn texts_of(d: Seq<(String, Json)>, n: int) -> Option<Seq<(Seq<char>, Seq<char>)>>
    decreases n,
{
    if n <= 0 {
        Some(seq![])
    } else {
        match (texts_of(d, n - 1), json::text_of(d[n - 1].1)) {
            (Some(rest), Some(t)) => Some(rest.push((d[n - 1].0@, t))),
            _ => None,
        }
    }
}

/// The catalogs that were added: none when they cannot be told.
pub open spec fn stored_in(r: Result<Json, CmdErrorModel>) -> Seq<(Seq<char>, Seq<char>)> {
    match r {
        Ok(Json::Dict(d)) => match texts_of(d@, d@.len() as int) {
            Some(l) => l,
            None => seq![],
        },
        _ => seq![],
    }
}

/// The official catalog, and the first `n` of those that were added.
pub open spec fn repos_of(url: Seq<char>, l: Seq<(Seq<char>, Seq<char>)>, n: int) -> Seq<
    ChartRepoModel,
>
    decreases n,
{
    if n <= 0 {
        seq![ChartRepoModel { name: OFFICIAL@, url, removable: false }]
    } else {
        let rest = repos_of(url, l, n - 1);
        if l[n - 1].0 == OFFICIAL@ {
            rest
        } else {
            rest.push(ChartRepoModel { name: l[n - 1].0, url: l[n - 1].1, removable: true })
        }
    }
}

/// Listing the catalogs.
pub open spec fn repos_flow(url: Seq<char>, a: Seq<Answer>, i: int) -> Flow<Seq<ChartRepoModel>> {
    kubectl::get_json_flow(
        seq!["get"@, "configmap"@, REPO_CM@, "-n"@, REPO_NS@, "-o"@, "jsonpath={.data}"@],
        a,
        i,
    ).and_then(
        |r: Result<Json, CmdErrorModel>, j: int|
            Flow::Done(repos_of(url, stored_in(r), stored_in(r).len() as int), j),
    )
}

proof fn lemma_texts_none(d: Seq<(String, Json)>, i: int, n: int)
    requires
        i <= n,
        texts_of(d, i) is None,
    ensures
        texts_of(d, n) is None,
    decreases n - i,
{
    if i < n {
        lemma_texts_none(d, i, n - 1);
    }
}

fn read_stored(r: &Result<Json, CmdError>) -> (out: Vec<(String, String)>)
    ensures
        out.model() == stored_in(r.model()),
{
    let mut out: Vec<(String, String)> = Vec::new();
    assert(out.model() =~= seq![]);
    let d = match r {
        Ok(Json::Dict(d)) => d,
        _ => return out,
    };
    let mut k: usize = 0;
    while k < d.len()
        invariant
            k <= d@.len(),
            r.model() == Ok::<Json, CmdErrorModel>(Json::Dict(*d)),
            texts_of(d@, k as int) == Some(out.model()),
        decreases d@.len() - k,
    {
        let ghost before = out.model();
        match d[k].1.as_str() {
            Some(t) => {
                let e = (d[k].0.clone(), t.to_owned());
                out.push(e);
                assert(out.model() =~= before.push(e.model()));
            },
            None => {
                proof {
                    lemma_texts_none(d@, k + 1, d@.len() as int);
                }
                let none: Vec<(String, String)> = Vec::new();
                assert(none.model() =~= seq![]);
                return none;
            },
        }
        k += 1;
    }
    out
}

/// Lists the catalogs: the official one, and those that were added.
pub fn list_repos(s: &mut Script, url: &str) -> (r: Result<Vec<ChartRepo>, Ask>)
    ensures
        effects::went(
            r,
            repos_flow(url@, old(s).answers@, old(s).at as int),
            *old(s),
            *final(s),
        ),
{
    let args: [&str; 7] = [
        "get",
        "configmap",
        REPO_CM,
        "-n",
        REPO_NS,
        "-o",
        "jsonpath={.data}",
    ];
    assert((&args).model() =~= seq![
        "get"@,
        "configmap"@,
        REPO_CM@,
        "-n"@,
        REPO_NS@,
        "-o"@,
        "jsonpath={.data}"@,
    ]);
    let got = kubectl::get_json(s, &args)?;
    let l = read_stored(&got);
    let mut out: Vec<ChartRepo> = Vec::new();
    let official = ChartRepo { name: OFFICIAL.to_owned(), url: url.to_owned(), removable: false };
    out.push(official);
    assert(out.model() =~= repos_of(url@, l.model(), 0));
    let mut k: usize = 0;
    while k < l.len()
        invariant
            k <= l@.len(),
            out.model() == repos_of(url@, l.model(), k as int),
        decreases l@.len() - k,
    {
        let ghost before = out.model();
        let e = &l[k];
        assert(l.model()[k as int] == e.model());
        if !text::same(e.0.as_str(), OFFICIAL) {
            let repo = ChartRepo { name: e.0.clone(), url: e.1.clone(), removable: true };
            out.push(repo);
            assert(out.model() =~= before.push(repo.model()));
        }
        k += 1;
    }
    Ok(out)
}

/// Whether a name is made of small letters, digits and hyphens, and is short
/// enough to name a directory.
pub open spec fn plain_name(s: Seq<char>) -> bool {
    &&& 0 < s.len() <= 63
    &&& forall|i: int|
        0 <= i < s.len() ==> ('a' <= #[trigger] s[i] && s[i] <= 'z') || text::is_digit(s[i])
            || s[i] == '-'
}

fn is_plain(s: &str) -> (r: bool)
    ensures
        r == plain_name(s@),
{
    let cs = text::chars_of(s);
    if cs.len() == 0 || cs.len() > 63 {
        return false;
    }
    let mut k: usize = 0;
    while k < cs.len()
        invariant
            k <= cs@.len(),
            cs@ == s@,
            forall|i: int|
                0 <= i < k ==> ('a' <= #[trigger] s@[i] && s@[i] <= 'z') || text::is_digit(s@[i])
                    || s@[i] == '-',
        decreases cs@.len() - k,
    {
        let c = cs[k];
        if !(('a' <= c && c <= 'z') || ('0' <= c && c <= '9') || c == '-') {
            assert(!(('a' <= s@[k as int] && s@[k as int] <= 'z') || text::is_digit(s@[k as int])
                || s@[k as int] == '-'));
            return false;
        }
        k += 1;
    }
    true
}

/// Whether a catalog may have this name.
pub open spec fn repo_name(s: Seq<char>) -> bool {
    plain_name(s) && s != OFFICIAL@ && s != CUSTOM@
}

/// Whether a catalog may have this name.
pub fn valid_repo_name(name: &str) -> (r: bool)
    ensures
        r == repo_name(name@),
{
    is_plain(name) && !text::same(name, OFFICIAL) && !text::same(name, CUSTOM)
}

/// Whether a catalog may be published there.
pub fn valid_repo_url(url: &str) -> (r: bool)
    ensures
        r == text::begins(url@, "https://"@),
{
    text::starts_with(url, "https://")
}

/// Whether apps may be pulled from there.
pub fn valid_registry(registry: &str) -> (r: bool)
    ensures
        r == text::begins(registry@, "oci://"@),
{
    text::starts_with(registry, "oci://")
}

/// Whether an app may have this name.
pub fn valid_chart_name(name: &str) -> (r: bool)
    ensures
        r == plain_name(name@),
{
    is_plain(name)
}

/// A plain name holds nothing that leads out of a directory.
pub proof fn a_plain_name_stays_in_its_directory(s: Seq<char>)
    requires
        plain_name(s),
    ensures
        forall|i: int| 0 <= i < s.len() ==> #[trigger] s[i] != '/' && s[i] != '.',
        paths::below(CACHE_DIR@, s) == CACHE_DIR@ + "/"@ + s,
{
    assert forall|i: int| 0 <= i < s.len() implies #[trigger] s[i] != '/' && s[i] != '.' by {
        assert(('a' <= s[i] && s[i] <= 'z') || text::is_digit(s[i]) || s[i] == '-');
    }
    reveal_strlit("/");
    reveal_strlit("/var/lib/yolab/charts");
    if text::begins(s, "/"@) {
        assert(s.subrange(0, 1)[0] == "/"@[0]);
        assert(s[0] == '/');
    }
    assert(!text::ends(CACHE_DIR@, "/"@)) by {
        assert(CACHE_DIR@.last() == 's');
        if text::ends(CACHE_DIR@, "/"@) {
            assert(CACHE_DIR@[CACHE_DIR@.len() - 1] == "/"@[0]);
        }
    }
}

/// Changing one entry of where the added catalogs are kept.
pub open spec fn patch_flow(name: Seq<char>, value: Doc, a: Seq<Answer>, i: int) -> Flow<
    Result<Seq<char>, CmdErrorModel>,
> {
    kubectl::run_flow(
        seq![
            "patch"@,
            "configmap"@,
            REPO_CM@,
            "-n"@,
            REPO_NS@,
            "--type"@,
            "merge"@,
            "-p"@,
            json::rendered(http::single("data"@, http::single(name, value))),
        ],
        a,
        i,
    )
}

fn patch(s: &mut Script, name: &str, url: Option<&str>) -> (r: Result<Result<String, CmdError>, Ask>)
    ensures
        effects::went(
            r,
            patch_flow(name@, json::opt_text_doc(url.model()), old(s).answers@, old(s).at as int),
            *old(s),
            *final(s),
        ),
{
    let value = match url {
        Some(u) => Json::text(u),
        None => Json::Null,
    };
    let j = http::single_entry("data", http::single_entry(name, value));
    let p = json::render(&j);
    let args: [&str; 9] = [
        "patch",
        "configmap",
        REPO_CM,
        "-n",
        REPO_NS,
        "--type",
        "merge",
        "-p",
        p.as_str(),
    ];
    assert((&args).model() =~= seq![
        "patch"@,
        "configmap"@,
        REPO_CM@,
        "-n"@,
        REPO_NS@,
        "--type"@,
        "merge"@,
        "-p"@,
        p@,
    ]);
    kubectl::run(s, &args)
}

/// Adding a catalog: where they are kept is made when it is not there yet.
pub open spec fn add_flow(name: Seq<char>, url: Seq<char>, a: Seq<Answer>, i: int) -> Flow<
    Result<(), ErrorModel>,
> {
    if !repo_name(name) {
        Flow::Done(
            Err(
                ErrorModel::message(
                    "repo name must be lowercase letters, digits and hyphens, and not 'official'"@,
                ),
            ),
            i,
        )
    } else if !text::begins(url, "https://"@) {
        Flow::Done(Err(ErrorModel::message("repo URL must start with https://"@)), i)
    } else {
        patch_flow(name, Doc::Text(url), a, i).and_then(
            |r: Result<Seq<char>, CmdErrorModel>, j: int|
                match r {
                    Ok(_) => Flow::Done(Ok(()), j),
                    Err(_) => kubectl::run_flow(
                        seq!["create"@, "configmap"@, REPO_CM@, "-n"@, REPO_NS@],
                        a,
                        j,
                    ).and_then(
                        |c: Result<Seq<char>, CmdErrorModel>, k: int|
                            patch_flow(name, Doc::Text(url), a, k).and_then(
                                |x: Result<Seq<char>, CmdErrorModel>, m: int|
                                    Flow::Done(
                                        match x {
                                            Ok(_) => Ok(()),
                                            Err(e) => Err(ErrorModel::command(e)),
                                        },
                                        m,
                                    ),
                            ),
                    ),
                },
        )
    }
}

/// Adds a catalog.
pub fn add_repo(s: &mut Script, name: &str, url: &str) -> (r: Result<Result<(), Error>, Ask>)
    ensures
        effects::went(
            r,
            add_flow(name@, url@, old(s).answers@, old(s).at as int),
            *old(s),
            *final(s),
        ),
{
    if !valid_repo_name(name) {
        return Ok(
            Err(
                Error::msg(
                    "repo name must be lowercase letters, digits and hyphens, and not 'official'",
                ),
            ),
        );
    }
    if !valid_repo_url(url) {
        return Ok(Err(Error::msg("repo URL must start with https://")));
    }
    if let Ok(_) = patch(s, name, Some(url))? {
        return Ok(Ok(()));
    }
    let args: [&str; 5] = ["create", "configmap", REPO_CM, "-n", REPO_NS];
    assert((&args).model() =~= seq!["create"@, "configmap"@, REPO_CM@, "-n"@, REPO_NS@]);
    let _ = kubectl::run(s, &args)?;
    match patch(s, name, Some(url))? {
        Ok(_) => Ok(Ok(())),
        Err(e) => Ok(Err(Error::new(e))),
    }
}

/// Where the copy of a catalog is kept.
pub open spec fn cache_path(repo: Seq<char>) -> Seq<char> {
    paths::below(CACHE_DIR@, repo)
}

/// Where the copy of a catalog is kept.
pub fn cache_dir_for(repo: &str) -> (r: String)
    ensures
        r@ == cache_path(repo@),
{
    paths::join(CACHE_DIR, repo)
}

/// Where the copy of the official catalog is kept.
pub open spec fn official_path() -> Seq<char> {
    cache_path(OFFICIAL@)
}

/// Where the copy of the official catalog is kept.
pub fn official_dir() -> (r: String)
    ensures
        r@ == official_path(),
{
    cache_dir_for(OFFICIAL)
}

/// Removing a catalog, and the copy of it, whatever comes of that.
pub open spec fn remove_flow(name: Seq<char>, a: Seq<Answer>, i: int) -> Flow<Result<(), ErrorModel>> {
    if name == OFFICIAL@ {
        Flow::Done(Err(ErrorModel::message("the official catalog cannot be removed"@)), i)
    } else {
        patch_flow(name, Doc::Null, a, i).and_then(
            |r: Result<Seq<char>, CmdErrorModel>, j: int|
                match r {
                    Err(e) => Flow::Done(Err(ErrorModel::command(e)), j),
                    Ok(_) => effects::did_flow(
                        AskModel::ClearDir { path: cache_path(name) },
                        a,
                        j,
                    ).and_then(|x: Result<(), Seq<char>>, k: int| Flow::Done(Ok(()), k)),
                },
        )
    }
}

/// Removes a catalog. The official one stays.
pub fn remove_repo(s: &mut Script, name: &str) -> (r: Result<Result<(), Error>, Ask>)
    ensures
        effects::went(
            r,
            remove_flow(name@, old(s).answers@, old(s).at as int),
            *old(s),
            *final(s),
        ),
{
    if text::same(name, OFFICIAL) {
        return Ok(Err(Error::msg("the official catalog cannot be removed")));
    }
    if let Err(e) = patch(s, name, None)? {
        return Ok(Err(Error::new(e)));
    }
    let _ = s.did(Ask::ClearDir { path: cache_dir_for(name) })?;
    Ok(Ok(()))
}

// ── What a catalog lists ─────────────────────────────────────────────────────

/// An app in a catalog.
#[derive(Debug)]
pub struct CatalogEntry {
    pub name: String,
    pub version: String,
}

/// A `CatalogEntry` with its texts as characters.
pub struct CatalogEntryModel {
    pub name: Seq<char>,
    pub version: Seq<char>,
}

impl Model for CatalogEntry {
    type M = CatalogEntryModel;

    open spec fn model(&self) -> CatalogEntryModel {
        CatalogEntryModel { name: self.name@, version: self.version@ }
    }
}

/// What a catalog lists.
#[derive(Debug)]
pub struct CatalogManifest {
    pub registry: String,
    pub library: Option<CatalogEntry>,
    pub charts: Vec<CatalogEntry>,
}

/// A `CatalogManifest` with its texts as characters.
pub struct CatalogManifestModel {
    pub registry: Seq<char>,
    pub library: Option<CatalogEntryModel>,
    pub charts: Seq<CatalogEntryModel>,
}

impl Model for CatalogManifest {
    type M = CatalogManifestModel;

    open spec fn model(&self) -> CatalogManifestModel {
        CatalogManifestModel {
            registry: self.registry@,
            library: self.library.model(),
            charts: self.charts.model(),
        }
    }
}

impl Clone for CatalogEntry {
    fn clone(&self) -> (r: CatalogEntry)
        ensures
            r.model() == self.model(),
    {
        CatalogEntry { name: self.name.clone(), version: self.version.clone() }
    }
}

impl Clone for CatalogManifest {
    fn clone(&self) -> (r: CatalogManifest)
        ensures
            r.model() == self.model(),
    {
        let l = &self.charts;
        let mut charts: Vec<CatalogEntry> = Vec::new();
        let mut k: usize = 0;
        while k < l.len()
            invariant
                k <= l@.len(),
                charts@.len() == k,
                forall|i: int| 0 <= i < k ==> (#[trigger] charts@[i]).model() == l@[i].model(),
            decreases l@.len() - k,
        {
            charts.push(l[k].clone());
            k += 1;
        }
        assert(charts.model() =~= l.model());
        let library = match &self.library {
            Some(e) => Some(e.clone()),
            None => None,
        };
        CatalogManifest { registry: self.registry.clone(), library, charts }
    }
}

/// What a catalog lists, or what is wrong with it, as it was read.
pub open spec fn checked_manifest(
    repo: Seq<char>,
    read: Result<CatalogManifestModel, Seq<char>>,
) -> Result<CatalogManifestModel, ErrorModel> {
    match read {
        Err(e) => Err(ErrorModel::message(repo + ": catalog manifest is not valid: "@ + e)),
        Ok(m) => if text::begins(m.registry, "oci://"@) {
            Ok(m)
        } else {
            Err(ErrorModel::message(repo + ": registry must be an oci:// reference"@))
        },
    }
}

/// Fetching what a catalog lists: the page, and what it says as YAML.
pub open spec fn manifest_flow(repo: ChartRepoModel, a: Seq<Answer>, i: int) -> Flow<
    Result<CatalogManifestModel, ErrorModel>,
> {
    effects::file_flow(AskModel::Fetch { url: repo.url, secs: 30 }, a, i).and_then(
        |r: Result<Option<Seq<char>>, Seq<char>>, j: int|
            match r {
                Err(e) => Flow::Done(Err(ErrorModel::message(e)), j),
                Ok(None) => Flow::Done(Err(ErrorModel::message("there is no such page"@)), j),
                Ok(Some(text)) => effects::manifest_flow(AskModel::ReadManifest { text }, a, j).and_then(
                    |m: Result<CatalogManifestModel, Seq<char>>, k: int|
                        Flow::Done(checked_manifest(repo.name, m), k),
                ),
            },
    )
}

/// What a catalog lists, or what is wrong with it, as it was read.
pub fn check_manifest(repo: &str, read: Result<CatalogManifest, String>) -> (r: Result<
    CatalogManifest,
    Error,
>)
    ensures
        r.model() == checked_manifest(repo@, read.model()),
{
    match read {
        Err(e) => {
            let why = text::cat3(repo, ": catalog manifest is not valid: ", e.as_str());
            Err(Error::msg(why.as_str()))
        },
        Ok(m) => {
            if valid_registry(m.registry.as_str()) {
                Ok(m)
            } else {
                let why = text::cat(repo, ": registry must be an oci:// reference");
                Err(Error::msg(why.as_str()))
            }
        },
    }
}

/// Fetches what a catalog lists.
pub fn fetch_manifest(s: &mut Script, repo: &ChartRepo) -> (r: Result<
    Result<CatalogManifest, Error>,
    Ask,
>)
    ensures
        effects::went(
            r,
            manifest_flow(repo.model(), old(s).answers@, old(s).at as int),
            *old(s),
            *final(s),
        ),
{
    match s.file(Ask::Fetch { url: repo.url.clone(), secs: 30 })? {
        Err(e) => Ok(Err(Error::msg(e.as_str()))),
        Ok(None) => Ok(Err(Error::msg("there is no such page"))),
        Ok(Some(text)) => {
            let read = s.manifest(Ask::ReadManifest { text })?;
            Ok(check_manifest(repo.name.as_str(), read))
        },
    }
}

// ── Keeping copies ───────────────────────────────────────────────────────────

/// Where an app is pulled from.
pub open spec fn reference_of(registry: Seq<char>, name: Seq<char>) -> Seq<char> {
    text::shed_back(registry, '/') + "/"@ + name
}

/// What came of pulling an app.
pub open spec fn pulled(
    reference: Seq<char>,
    version: Seq<char>,
    r: Result<CommandOutputModel, CmdErrorModel>,
) -> Result<(), ErrorModel> {
    match r {
        Err(e) => Err(ErrorModel::command(e)),
        Ok(o) => if o.success {
            Ok(())
        } else {
            Err(
                ErrorModel::message(
                    "pull "@ + reference + ":"@ + version + ": "@ + text::trimmed(o.stderr),
                ),
            )
        },
    }
}

/// Pulling an app in the place of its old copy.
pub open spec fn pull_flow(
    dir: Seq<char>,
    registry: Seq<char>,
    e: CatalogEntryModel,
    a: Seq<Answer>,
    i: int,
) -> Flow<Result<(), ErrorModel>> {
    let reference = reference_of(registry, e.name);
    effects::did_flow(AskModel::ClearDir { path: paths::below(dir, e.name) }, a, i).and_then(
        |x: Result<(), Seq<char>>, j: int|
            effects::run_flow(
                "helm"@,
                seq![
                    "pull"@,
                    reference,
                    "--version"@,
                    e.version,
                    "--untar"@,
                    "--untardir"@,
                    dir,
                ],
                host::NO_BOUND,
                None,
                Queue::Free,
                a,
                j,
            ).and_then(
                |r: Result<CommandOutputModel, CmdErrorModel>, k: int|
                    Flow::Done(pulled(reference, e.version, r), k),
            ),
    )
}

/// Pulls an app in the place of its old copy.
pub fn pull_into(s: &mut Script, dir: &str, registry: &str, entry: &CatalogEntry) -> (r: Result<
    Result<(), Error>,
    Ask,
>)
    ensures
        effects::went(
            r,
            pull_flow(dir@, registry@, entry.model(), old(s).answers@, old(s).at as int),
            *old(s),
            *final(s),
        ),
{
    let base = text::trim_end_matches(registry, '/');
    let reference = text::cat3(base, "/", entry.name.as_str());
    let _ = s.did(Ask::ClearDir { path: paths::join(dir, entry.name.as_str()) })?;
    let args: [&str; 7] = [
        "pull",
        reference.as_str(),
        "--version",
        entry.version.as_str(),
        "--untar",
        "--untardir",
        dir,
    ];
    assert((&args).model() =~= seq![
        "pull"@,
        reference@,
        "--version"@,
        entry.version@,
        "--untar"@,
        "--untardir"@,
        dir@,
    ]);
    match s.run("helm", &args, host::NO_BOUND, None, Queue::Free)? {
        Err(e) => Ok(Err(Error::new(e))),
        Ok(o) => {
            if o.success {
                Ok(Ok(()))
            } else {
                let why = text::cat5(
                    "pull ",
                    reference.as_str(),
                    ":",
                    entry.version.as_str(),
                    ": ",
                );
                let why = text::cat(why.as_str(), text::trim(o.stderr.as_str()));
                Ok(Err(Error::msg(why.as_str())))
            }
        },
    }
}

/// Pulling the library of a catalog, when it has one of a usable name, whatever
/// comes of it.
pub open spec fn library_flow(dir: Seq<char>, m: CatalogManifestModel, a: Seq<Answer>, i: int) -> Flow<()> {
    match m.library {
        Some(l) => if plain_name(l.name) {
            pull_flow(dir, m.registry, l, a, i).and_then(
                |r: Result<(), ErrorModel>, j: int| Flow::Done((), j),
            )
        } else {
            Flow::Done((), i)
        },
        None => Flow::Done((), i),
    }
}

/// Pulling the apps from the `k`th on; `n` of those before it were pulled.
pub open spec fn pull_all_flow(
    dir: Seq<char>,
    m: CatalogManifestModel,
    k: int,
    n: usize,
    a: Seq<Answer>,
    i: int,
) -> Flow<usize>
    decreases m.charts.len() - k,
{
    if k < 0 || k >= m.charts.len() {
        Flow::Done(n, i)
    } else if !plain_name(m.charts[k].name) {
        pull_all_flow(dir, m, k + 1, n, a, i)
    } else {
        pull_flow(dir, m.registry, m.charts[k], a, i).and_then(
            |r: Result<(), ErrorModel>, j: int|
                pull_all_flow(
                    dir,
                    m,
                    k + 1,
                    if r is Ok {
                        (n + 1) as usize
                    } else {
                        n
                    },
                    a,
                    j,
                ),
        )
    }
}

/// Keeping a copy of a catalog: how many apps were pulled.
pub open spec fn sync_flow(repo: ChartRepoModel, a: Seq<Answer>, i: int) -> Flow<
    Result<usize, ErrorModel>,
> {
    let dir = cache_path(repo.name);
    manifest_flow(repo, a, i).and_ok(
        |m: CatalogManifestModel, j: int|
            effects::did_flow(AskModel::EnsureDir { path: dir }, a, j).and_then(
                |r: Result<(), Seq<char>>, k: int|
                    match r {
                        Err(e) => Flow::Done(Err(ErrorModel::message(e)), k),
                        Ok(_) => library_flow(dir, m, a, k).and_then(
                            |u: (), x: int|
                                pull_all_flow(dir, m, 0, 0, a, x).and_then(
                                    |n: usize, y: int| Flow::Done(Ok(n), y),
                                ),
                        ),
                    },
            ),
    )
}

fn pull_library(s: &mut Script, dir: &str, m: &CatalogManifest) -> (r: Result<(), Ask>)
    ensures
        effects::went(
            r,
            library_flow(dir@, m.model(), old(s).answers@, old(s).at as int),
            *old(s),
            *final(s),
        ),
{
    if let Some(l) = &m.library {
        if valid_chart_name(l.name.as_str()) {
            let _ = pull_into(s, dir, m.registry.as_str(), l)?;
        }
    }
    Ok(())
}

fn pull_all(s: &mut Script, dir: &str, m: &CatalogManifest) -> (r: Result<usize, Ask>)
    ensures
        effects::went(
            r,
            pull_all_flow(dir@, m.model(), 0, 0, old(s).answers@, old(s).at as int),
            *old(s),
            *final(s),
        ),
{
    let mut n: usize = 0;
    let mut k: usize = 0;
    let ghost l = m.charts.model();
    while k < m.charts.len()
        invariant
            n <= k <= m.charts@.len(),
            l == m.charts.model(),
            s.answers == old(s).answers,
            pull_all_flow(dir@, m.model(), 0, 0, s.answers@, old(s).at as int) == pull_all_flow(
                dir@,
                m.model(),
                k as int,
                n,
                s.answers@,
                s.at as int,
            ),
        decreases m.charts@.len() - k,
    {
        let e = &m.charts[k];
        assert(l[k as int] == e.model());
        k += 1;
        if !valid_chart_name(e.name.as_str()) {
            continue ;
        }
        if let Ok(_) = pull_into(s, dir, m.registry.as_str(), e)? {
            n += 1;
        }
    }
    Ok(n)
}

/// Keeps a copy of a catalog, and says how many apps were pulled. One that cannot
/// be pulled is passed over.
pub fn sync_repo(s: &mut Script, repo: &ChartRepo) -> (r: Result<Result<usize, Error>, Ask>)
    ensures
        effects::went(
            r,
            sync_flow(repo.model(), old(s).answers@, old(s).at as int),
            *old(s),
            *final(s),
        ),
{
    let m = match fetch_manifest(s, repo)? {
        Ok(m) => m,
        Err(e) => return Ok(Err(e)),
    };
    let dir = cache_dir_for(repo.name.as_str());
    if let Err(e) = s.did(Ask::EnsureDir { path: dir.clone() })? {
        return Ok(Err(Error::msg(e.as_str())));
    }
    pull_library(s, dir.as_str(), &m)?;
    let n = pull_all(s, dir.as_str(), &m)?;
    Ok(Ok(n))
}

/// The first entry of a name among those from the `k`th on.
pub open spec fn entry_named(l: Seq<CatalogEntryModel>, name: Seq<char>, k: int) -> Option<
    CatalogEntryModel,
>
    decreases l.len() - k,
{
    if k < 0 || k >= l.len() {
        None
    } else if l[k].name == name {
        Some(l[k])
    } else {
        entry_named(l, name, k + 1)
    }
}

/// Keeping a copy of one app.
pub open spec fn sync_chart_flow(repo: ChartRepoModel, name: Seq<char>, a: Seq<Answer>, i: int) -> Flow<
    Result<(), ErrorModel>,
> {
    let dir = cache_path(repo.name);
    if !plain_name(name) {
        Flow::Done(Err(ErrorModel::message("unusable chart name "@ + text::quoted(name))), i)
    } else {
        manifest_flow(repo, a, i).and_ok(
            |m: CatalogManifestModel, j: int|
                match entry_named(m.charts, name, 0) {
                    None => Flow::Done(
                        Err(ErrorModel::message(name + " is not in "@ + repo.name)),
                        j,
                    ),
                    Some(e) => effects::did_flow(AskModel::EnsureDir { path: dir }, a, j).and_then(
                        |r: Result<(), Seq<char>>, k: int|
                            match r {
                                Err(x) => Flow::Done(Err(ErrorModel::message(x)), k),
                                Ok(_) => pull_flow(dir, m.registry, e, a, k),
                            },
                    ),
                },
        )
    }
}

fn find_entry<'a>(l: &'a Vec<CatalogEntry>, name: &str) -> (r: Option<&'a CatalogEntry>)
    ensures
        r.model() == entry_named(l.model(), name@, 0),
{
    let mut k: usize = 0;
    while k < l.len()
        invariant
            k <= l@.len(),
            entry_named(l.model(), name@, 0) == entry_named(l.model(), name@, k as int),
        decreases l@.len() - k,
    {
        assert(l.model()[k as int] == l@[k as int].model());
        if text::same(l[k].name.as_str(), name) {
            return Some(&l[k]);
        }
        k += 1;
    }
    None
}

/// Keeps a copy of one app.
pub fn sync_chart(s: &mut Script, repo: &ChartRepo, name: &str) -> (r: Result<
    Result<(), Error>,
    Ask,
>)
    ensures
        effects::went(
            r,
            sync_chart_flow(repo.model(), name@, old(s).answers@, old(s).at as int),
            *old(s),
            *final(s),
        ),
{
    if !valid_chart_name(name) {
        let q = text::quote(name);
        let why = text::cat("unusable chart name ", q.as_str());
        return Ok(Err(Error::msg(why.as_str())));
    }
    let m = match fetch_manifest(s, repo)? {
        Ok(m) => m,
        Err(e) => return Ok(Err(e)),
    };
    let entry = match find_entry(&m.charts, name) {
        Some(e) => e,
        None => {
            let why = text::cat3(name, " is not in ", repo.name.as_str());
            return Ok(Err(Error::msg(why.as_str())));
        },
    };
    let dir = cache_dir_for(repo.name.as_str());
    if let Err(e) = s.did(Ask::EnsureDir { path: dir.clone() })? {
        return Ok(Err(Error::msg(e.as_str())));
    }
    pull_into(s, dir.as_str(), m.registry.as_str(), entry)
}

// ── Finding an app ───────────────────────────────────────────────────────────

/// The copies of the catalogs from the `k`th on that are there.
pub open spec fn present_flow(
    l: Seq<ChartRepoModel>,
    k: int,
    out: Seq<(Seq<char>, Seq<char>)>,
    a: Seq<Answer>,
    i: int,
) -> Flow<Seq<(Seq<char>, Seq<char>)>>
    decreases l.len() - k,
{
    if k < 0 || k >= l.len() {
        Flow::Done(out, i)
    } else {
        let dir = cache_path(l[k].name);
        effects::yes_flow(AskModel::IsDir { path: dir }, a, i).and_then(
            |yes: bool, j: int|
                present_flow(
                    l,
                    k + 1,
                    if yes {
                        out.push((l[k].name, dir))
                    } else {
                        out
                    },
                    a,
                    j,
                ),
        )
    }
}

/// The copies that are there: the owner's own first, and the catalogs.
pub open spec fn sources_flow(url: Seq<char>, a: Seq<Answer>, i: int) -> Flow<
    Seq<(Seq<char>, Seq<char>)>,
> {
    effects::yes_flow(AskModel::IsDir { path: cache_path(CUSTOM@) }, a, i).and_then(
        |own: bool, j: int|
            repos_flow(url, a, j).and_then(
                |l: Seq<ChartRepoModel>, k: int|
                    present_flow(
                        l,
                        0,
                        if own {
                            seq![(CUSTOM@, cache_path(CUSTOM@))]
                        } else {
                            seq![]
                        },
                        a,
                        k,
                    ),
            ),
    )
}

/// The copies that are there: the owner's own first, and the catalogs.
pub fn chart_sources(s: &mut Script, url: &str) -> (r: Result<Vec<(String, String)>, Ask>)
    ensures
        effects::went(
            r,
            sources_flow(url@, old(s).answers@, old(s).at as int),
            *old(s),
            *final(s),
        ),
{
    let mut out: Vec<(String, String)> = Vec::new();
    let custom = cache_dir_for(CUSTOM);
    if s.yes(Ask::IsDir { path: custom.clone() })? {
        let e = (CUSTOM.to_owned(), custom);
        out.push(e);
        assert(out.model() =~= seq![(CUSTOM@, cache_path(CUSTOM@))]);
    } else {
        assert(out.model() =~= seq![]);
    }
    let l = list_repos(s, url)?;
    let mut k: usize = 0;
    let ghost start = out.model();
    let ghost from = s.at as int;
    while k < l.len()
        invariant
            k <= l@.len(),
            s.answers == old(s).answers,
            present_flow(l.model(), 0, start, s.answers@, from) == present_flow(
                l.model(),
                k as int,
                out.model(),
                s.answers@,
                s.at as int,
            ),
            sources_flow(url@, s.answers@, old(s).at as int) == present_flow(
                l.model(),
                0,
                start,
                s.answers@,
                from,
            ),
        decreases l@.len() - k,
    {
        let ghost before = out.model();
        assert(l.model()[k as int] == l@[k as int].model());
        let dir = cache_dir_for(l[k].name.as_str());
        if s.yes(Ask::IsDir { path: dir.clone() })? {
            let e = (l[k].name.clone(), dir);
            out.push(e);
            assert(out.model() =~= before.push(e.model()));
        }
        k += 1;
    }
    Ok(out)
}

/// Looking for an app in the copies from the `k`th on.
pub open spec fn look_flow(
    l: Seq<(Seq<char>, Seq<char>)>,
    id: Seq<char>,
    repo: Option<Seq<char>>,
    k: int,
    a: Seq<Answer>,
    i: int,
) -> Flow<Option<(Seq<char>, Seq<char>)>>
    decreases l.len() - k,
{
    if k < 0 || k >= l.len() {
        Flow::Done(None, i)
    } else if repo is Some && repo != Some(l[k].0) {
        look_flow(l, id, repo, k + 1, a, i)
    } else {
        let dir = paths::below(l[k].1, id);
        effects::check_flow(AskModel::IsFile { path: paths::below(dir, "Chart.yaml"@) }, a, i).and_then(
            |r: Result<bool, Seq<char>>, j: int|
                match r {
                    Ok(true) => Flow::Done(Some((l[k].0, dir)), j),
                    _ => look_flow(l, id, repo, k + 1, a, j),
                },
        )
    }
}

/// Finds an app: in the catalog that is asked for, or in the first that has it.
pub fn resolve_chart(s: &mut Script, url: &str, id: &str, repo: Option<&str>) -> (r: Result<
    Option<(String, String)>,
    Ask,
>)
    ensures
        effects::went(
            r,
            sources_flow(url@, old(s).answers@, old(s).at as int).and_then(
                |l: Seq<(Seq<char>, Seq<char>)>, j: int|
                    look_flow(l, id@, repo.model(), 0, old(s).answers@, j),
            ),
            *old(s),
            *final(s),
        ),
{
    let l = chart_sources(s, url)?;
    let mut k: usize = 0;
    let ghost from = s.at as int;
    while k < l.len()
        invariant
            k <= l@.len(),
            s.answers == old(s).answers,
            sources_flow(url@, s.answers@, old(s).at as int) == Flow::Done(l.model(), from),
            look_flow(l.model(), id@, repo.model(), 0, s.answers@, from) == look_flow(
                l.model(),
                id@,
                repo.model(),
                k as int,
                s.answers@,
                s.at as int,
            ),
        decreases l@.len() - k,
    {
        let e = &l[k];
        assert(l.model()[k as int] == e.model());
        k += 1;
        if let Some(want) = repo {
            if !text::same(want, e.0.as_str()) {
                continue ;
            }
        }
        let dir = paths::join(e.1.as_str(), id);
        let file = paths::join(dir.as_str(), "Chart.yaml");
        if let Ok(yes) = s.check(Ask::IsFile { path: file })? {
            if yes {
                return Ok(Some((e.0.clone(), dir)));
            }
        }
    }
    Ok(None)
}

// ── The controller ───────────────────────────────────────────────────────────

/// Keeps copies of the catalogs up to date.
#[derive(Clone, Copy, Debug)]
pub struct ChartSyncController;

/// Keeping copies of the catalogs from the `k`th on; `failed` is what went wrong
/// with those before it.
pub open spec fn sync_all_flow(
    l: Seq<ChartRepoModel>,
    k: int,
    failed: Seq<Seq<char>>,
    a: Seq<Answer>,
    i: int,
) -> Flow<Seq<Seq<char>>>
    decreases l.len() - k,
{
    if k < 0 || k >= l.len() {
        Flow::Done(failed, i)
    } else {
        sync_flow(l[k], a, i).and_then(
            |r: Result<usize, ErrorModel>, j: int|
                sync_all_flow(
                    l,
                    k + 1,
                    match r {
                        Ok(_) => failed,
                        Err(e) => failed.push(l[k].name + ": "@ + e.outermost()),
                    },
                    a,
                    j,
                ),
        )
    }
}

/// What came of keeping copies.
pub open spec fn synced(failed: Seq<Seq<char>>) -> Result<TickModel, ErrorModel> {
    if failed.len() == 0 {
        Ok(TickModel::Done)
    } else {
        Err(ErrorModel::message(text::joined(failed, "; "@)))
    }
}

fn sync_all(s: &mut Script, l: &Vec<ChartRepo>) -> (r: Result<Vec<String>, Ask>)
    ensures
        effects::went(
            r,
            sync_all_flow(l.model(), 0, seq![], old(s).answers@, old(s).at as int),
            *old(s),
            *final(s),
        ),
{
    let mut failed: Vec<String> = Vec::new();
    let mut k: usize = 0;
    assert(failed.model() =~= seq![]);
    while k < l.len()
        invariant
            k <= l@.len(),
            s.answers == old(s).answers,
            sync_all_flow(l.model(), 0, seq![], s.answers@, old(s).at as int) == sync_all_flow(
                l.model(),
                k as int,
                failed.model(),
                s.answers@,
                s.at as int,
            ),
        decreases l@.len() - k,
    {
        assert(l.model()[k as int] == l@[k as int].model());
        if let Err(e) = sync_repo(s, &l[k])? {
            let what = e.outermost();
            fleet::push_text(
                &mut failed,
                text::cat3(l[k].name.as_str(), ": ", what.as_str()),
            );
        }
        k += 1;
    }
    Ok(failed)
}

impl ChartSyncController {
    /// Its name.
    pub fn name(&self) -> (r: &'static str)
        ensures
            r@ == "chart-sync"@,
    {
        "chart-sync"
    }

    /// It runs on every machine.
    pub fn scope(&self) -> (r: Scope)
        ensures
            r == Scope::Node,
    {
        Scope::Node
    }

    /// How often it runs.
    pub fn interval(&self) -> (r: Duration)
        ensures
            r.nanos == 3600 * NANOS_PER_SEC,
    {
        Duration::from_secs(3600)
    }

    /// What it needs.
    pub fn requires_of(&self) -> (r: Vec<Requirement>)
        ensures
            r@ == seq![Requirement::KubeApi],
    {
        vec![Requirement::KubeApi]
    }

    /// Keeps copies of all catalogs; `url` is where the official one is published.
    pub fn reconcile(&self, s: &mut Script, url: &str) -> (r: Result<Result<Tick, Error>, Ask>)
        ensures
            effects::went(
                r,
                repos_flow(url@, old(s).answers@, old(s).at as int).and_then(
                    |l: Seq<ChartRepoModel>, j: int|
                        sync_all_flow(l, 0, seq![], old(s).answers@, j).and_then(
                            |failed: Seq<Seq<char>>, k: int| Flow::Done(synced(failed), k),
                        ),
                ),
                *old(s),
                *final(s),
            ),
    {
        let l = list_repos(s, url)?;
        let failed = sync_all(s, &l)?;
        assert(failed.model().len() == failed@.len());
        assert(text::texts(failed@) =~= failed.model());
        if failed.len() == 0 {
            Ok(Ok(Tick::Done))
        } else {
            let why = text::join(&failed, "; ");
            Ok(Err(Error::msg(why.as_str())))
        }
    }
}

/// The official catalog is neither replaced nor removed: nothing is asked for.
pub proof fn the_official_catalog_stays(url: Seq<char>, a: Seq<Answer>, i: int)
    ensures
        add_flow(OFFICIAL@, url, a, i) matches Flow::Done(Err(_), _),
        remove_flow(OFFICIAL@, a, i) matches Flow::Done(Err(_), _),
{
}

} // verus!
