//! What Ceph reports, and what follows from it.
use vstd::prelude::*;

use std::collections::{BTreeMap, BTreeSet, HashMap};

use crate::exec;
use crate::exec::{CmdError, CmdErrorModel};
use crate::json::Json;
use crate::json;
use crate::model::Model;
use crate::names::Names;
use crate::names;
use crate::text;

verus! {

broadcast use {
    vstd::std_specs::hash::group_hash_axioms,
    vstd::std_specs::btree::group_btree_axioms,
};

/// An OSD in the OSD map.
#[derive(Clone, Copy, Debug, PartialEq, Eq, Structural)]
pub struct OsdDumpEntry {
    pub osd: i64,
    pub up: bool,
    pub is_in: bool,
}

impl Model for OsdDumpEntry {
    type M = OsdDumpEntry;

    open spec fn model(&self) -> OsdDumpEntry {
        *self
    }
}

/// A pool in the OSD map.
#[derive(Debug)]
pub struct PoolEntry {
    pub pool: i64,
    pub pool_name: String,
    pub size: u32,
    pub min_size: u32,
}

/// A `PoolEntry` with its texts as characters.
pub struct PoolEntryModel {
    pub pool: i64,
    pub pool_name: Seq<char>,
    pub size: u32,
    pub min_size: u32,
}

impl Model for PoolEntry {
    type M = PoolEntryModel;

    open spec fn model(&self) -> PoolEntryModel {
        PoolEntryModel {
            pool: self.pool,
            pool_name: self.pool_name@,
            size: self.size,
            min_size: self.min_size,
        }
    }
}

/// The OSD map.
#[derive(Debug)]
pub struct OsdDump {
    pub osds: Vec<OsdDumpEntry>,
    pub pools: Vec<PoolEntry>,
}

/// An `OsdDump` with its texts as characters.
pub struct OsdDumpModel {
    pub osds: Seq<OsdDumpEntry>,
    pub pools: Seq<PoolEntryModel>,
}

impl Model for OsdDump {
    type M = OsdDumpModel;

    open spec fn model(&self) -> OsdDumpModel {
        OsdDumpModel { osds: self.osds@, pools: self.pools.model() }
    }
}

impl OsdDumpModel {
    /// The OSDs that are not up.
    pub open spec fn down(self) -> Set<i64> {
        Set::new(
            |id: i64|
                exists|i: int|
                    0 <= i < self.osds.len() && !(#[trigger] self.osds[i]).up && self.osds[i].osd
                        == id,
        )
    }

    /// The OSDs that are up.
    pub open spec fn up(self) -> Set<i64> {
        Set::new(
            |id: i64|
                exists|i: int|
                    0 <= i < self.osds.len() && (#[trigger] self.osds[i]).up && self.osds[i].osd
                        == id,
        )
    }
}

/// The names of pools by their number; of two with one number, the later.
pub open spec fn pool_map(pools: Seq<PoolEntryModel>) -> Map<i64, Seq<char>>
    decreases pools.len(),
{
    if pools.len() == 0 {
        Map::empty()
    } else {
        pool_map(pools.drop_last()).insert(pools.last().pool, pools.last().pool_name)
    }
}

/// A map of strings as a map of texts.
pub open spec fn text_map(m: Map<i64, String>) -> Map<i64, Seq<char>> {
    m.map_values(|s: String| s@)
}

impl OsdDump {
    /// The OSDs that are not up.
    pub fn down(&self) -> (r: BTreeSet<i64>)
        ensures
            r@ == self.model().down(),
    {
        let mut r: BTreeSet<i64> = BTreeSet::new();
        let mut i: usize = 0;
        while i < self.osds.len()
            invariant
                i <= self.osds@.len(),
                forall|id: i64|
                    r@.contains(id) <==> exists|k: int|
                        0 <= k < i && !(#[trigger] self.osds@[k]).up && self.osds@[k].osd == id,
            decreases self.osds@.len() - i,
        {
            if !self.osds[i].up {
                r.insert(self.osds[i].osd);
            }
            i += 1;
        }
        assert(r@ =~= self.model().down());
        r
    }

    /// The OSDs that are up.
    pub fn up(&self) -> (r: BTreeSet<i64>)
        ensures
            r@ == self.model().up(),
    {
        let mut r: BTreeSet<i64> = BTreeSet::new();
        let mut i: usize = 0;
        while i < self.osds.len()
            invariant
                i <= self.osds@.len(),
                forall|id: i64|
                    r@.contains(id) <==> exists|k: int|
                        0 <= k < i && (#[trigger] self.osds@[k]).up && self.osds@[k].osd == id,
            decreases self.osds@.len() - i,
        {
            if self.osds[i].up {
                r.insert(self.osds[i].osd);
            }
            i += 1;
        }
        assert(r@ =~= self.model().up());
        r
    }

    /// The name of every pool by its number.
    pub fn pool_names(&self) -> (r: HashMap<i64, String>)
        ensures
            text_map(r@) == pool_map(self.model().pools),
    {
        let mut r: HashMap<i64, String> = HashMap::new();
        let mut i: usize = 0;
        let ghost pools = self.pools.model();
        assert(pools.take(0) =~= seq![]);
        assert(text_map(r@) =~= Map::empty());
        while i < self.pools.len()
            invariant
                pools == self.pools.model(),
                i <= self.pools@.len(),
                text_map(r@) == pool_map(pools.take(i as int)),
            decreases self.pools@.len() - i,
        {
            let p = &self.pools[i];
            let ghost before = r@;
            r.insert(p.pool, p.pool_name.clone());
            assert(pools.take(i + 1).drop_last() =~= pools.take(i as int));
            assert(pools.take(i + 1).last() == p.model());
            assert(text_map(r@) =~= text_map(before).insert(p.pool, p.pool_name@));
            i += 1;
        }
        assert(pools.take(pools.len() as int) =~= pools);
        r
    }
}

// ── Reading the OSD map ──────────────────────────────────────────────────────

/// A flag that is written as 0 or 1.
pub open spec fn flag_of(o: Option<i64>) -> Option<bool> {
    match o {
        Some(n) => if n == 0 {
            Some(false)
        } else if n == 1 {
            Some(true)
        } else {
            None
        },
        None => None,
    }
}

fn flag(o: Option<i64>) -> (r: Option<bool>)
    ensures
        r == flag_of(o),
{
    match o {
        Some(0) => Some(false),
        Some(1) => Some(true),
        _ => None,
    }
}

/// A number of at most 32 bits that may be left out.
pub open spec fn small_at(j: Json, key: Seq<char>, at: int) -> Option<u32> {
    match json::slot(j, key, at) {
        None => Some(0u32),
        Some(Json::Number(n)) => match n.unsigned {
            Some(u) => if u <= u32::MAX {
                Some(u as u32)
            } else {
                None
            },
            None => None,
        },
        Some(_) => None,
    }
}

fn read_small(j: &Json, key: &str, at: usize) -> (r: Option<u32>)
    ensures
        r == small_at(*j, key@, at as int),
{
    match j.get_slot(key, at) {
        None => Some(0),
        Some(Json::Number(n)) => match n.unsigned {
            Some(u) => if u <= u32::MAX as u64 {
                Some(u as u32)
            } else {
                None
            },
            None => None,
        },
        Some(_) => None,
    }
}

/// The OSD an entry describes.
pub open spec fn osd_entry(j: Json) -> Option<OsdDumpEntry> {
    if !json::shaped(j, 3, 3) {
        None
    } else {
        match (
            json::int_slot(j, "osd"@, 0),
            flag_of(json::int_slot(j, "up"@, 1)),
            flag_of(json::int_slot(j, "in"@, 2)),
        ) {
            (Some(osd), Some(up), Some(is_in)) => Some(OsdDumpEntry { osd, up, is_in }),
            _ => None,
        }
    }
}

fn read_osd_entry(j: &Json) -> (r: Option<OsdDumpEntry>)
    ensures
        r == osd_entry(*j),
{
    if !j.is_shaped(3, 3) {
        return None;
    }
    match (j.i64_slot("osd", 0), flag(j.i64_slot("up", 1)), flag(j.i64_slot("in", 2))) {
        (Some(osd), Some(up), Some(is_in)) => Some(OsdDumpEntry { osd, up, is_in }),
        _ => None,
    }
}

/// The pool an entry describes.
pub open spec fn pool_entry(j: Json) -> Option<PoolEntryModel> {
    if !json::shaped(j, 2, 4) {
        None
    } else {
        match (
            json::int_slot(j, "pool"@, 0),
            json::text_slot(j, "pool_name"@, 1),
            small_at(j, "size"@, 2),
            small_at(j, "min_size"@, 3),
        ) {
            (Some(pool), Some(pool_name), Some(size), Some(min_size)) => Some(
                PoolEntryModel { pool, pool_name, size, min_size },
            ),
            _ => None,
        }
    }
}

fn read_pool_entry(j: &Json) -> (r: Option<PoolEntry>)
    ensures
        r.model() == pool_entry(*j),
{
    if !j.is_shaped(2, 4) {
        return None;
    }
    match (
        j.i64_slot("pool", 0),
        j.str_slot("pool_name", 1),
        read_small(j, "size", 2),
        read_small(j, "min_size", 3),
    ) {
        (Some(pool), Some(pool_name), Some(size), Some(min_size)) => Some(
            PoolEntry { pool, pool_name: pool_name.to_owned(), size, min_size },
        ),
        _ => None,
    }
}

/// The OSDs that entries describe; nothing when one describes none.
pub open spec fn osd_entries(l: Seq<Json>) -> Option<Seq<OsdDumpEntry>>
    decreases l.len(),
{
    if l.len() == 0 {
        Some(seq![])
    } else {
        match (osd_entries(l.drop_last()), osd_entry(l.last())) {
            (Some(s), Some(e)) => Some(s.push(e)),
            _ => None,
        }
    }
}

proof fn lemma_osd_entries_none(l: Seq<Json>, i: int)
    requires
        0 <= i <= l.len(),
        osd_entries(l.take(i)) is None,
    ensures
        osd_entries(l) is None,
    decreases l.len() - i,
{
    if i < l.len() {
        assert(l.take(i + 1).drop_last() =~= l.take(i));
        lemma_osd_entries_none(l, i + 1);
    } else {
        assert(l.take(i) =~= l);
    }
}

fn read_osd_entries(l: &Vec<Json>) -> (r: Option<Vec<OsdDumpEntry>>)
    ensures
        match r {
            Some(v) => osd_entries(l@) == Some(v@),
            None => osd_entries(l@) is None,
        },
{
    let mut out: Vec<OsdDumpEntry> = Vec::new();
    let mut i: usize = 0;
    assert(l@.take(0) =~= seq![]);
    while i < l.len()
        invariant
            i <= l@.len(),
            osd_entries(l@.take(i as int)) == Some(out@),
        decreases l@.len() - i,
    {
        assert(l@.take(i + 1).drop_last() =~= l@.take(i as int));
        match read_osd_entry(&l[i]) {
            Some(e) => out.push(e),
            None => {
                proof {
                    lemma_osd_entries_none(l@, i + 1);
                }
                return None;
            },
        }
        i += 1;
    }
    assert(l@.take(l@.len() as int) =~= l@);
    Some(out)
}

/// The pools that entries describe; nothing when one describes none.
pub open spec fn pool_entries(l: Seq<Json>) -> Option<Seq<PoolEntryModel>>
    decreases l.len(),
{
    if l.len() == 0 {
        Some(seq![])
    } else {
        match (pool_entries(l.drop_last()), pool_entry(l.last())) {
            (Some(s), Some(e)) => Some(s.push(e)),
            _ => None,
        }
    }
}

proof fn lemma_pool_entries_none(l: Seq<Json>, i: int)
    requires
        0 <= i <= l.len(),
        pool_entries(l.take(i)) is None,
    ensures
        pool_entries(l) is None,
    decreases l.len() - i,
{
    if i < l.len() {
        assert(l.take(i + 1).drop_last() =~= l.take(i));
        lemma_pool_entries_none(l, i + 1);
    } else {
        assert(l.take(i) =~= l);
    }
}

fn read_pool_entries(l: &Vec<Json>) -> (r: Option<Vec<PoolEntry>>)
    ensures
        r.model() == pool_entries(l@),
{
    let mut out: Vec<PoolEntry> = Vec::new();
    let mut i: usize = 0;
    assert(l@.take(0) =~= seq![]);
    assert(out.model() =~= seq![]);
    while i < l.len()
        invariant
            i <= l@.len(),
            pool_entries(l@.take(i as int)) == Some(out.model()),
        decreases l@.len() - i,
    {
        assert(l@.take(i + 1).drop_last() =~= l@.take(i as int));
        let ghost before = out.model();
        match read_pool_entry(&l[i]) {
            Some(e) => {
                out.push(e);
                assert(out.model() =~= before.push(e.model()));
            },
            None => {
                proof {
                    lemma_pool_entries_none(l@, i + 1);
                }
                return None;
            },
        }
        i += 1;
    }
    assert(l@.take(l@.len() as int) =~= l@);
    Some(out)
}

/// The OSD map a document describes: a list of OSDs and a list of pools.
pub open spec fn dump_in(j: Json) -> Option<OsdDumpModel> {
    if !json::shaped(j, 2, 2) {
        None
    } else {
        match (json::items_slot(j, "osds"@, 0), json::items_slot(j, "pools"@, 1)) {
            (Some(os), Some(ps)) => match (osd_entries(os), pool_entries(ps)) {
                (Some(osds), Some(pools)) => Some(OsdDumpModel { osds, pools }),
                _ => None,
            },
            _ => None,
        }
    }
}

/// Reads the OSD map. One without OSDs is no map, never an empty cluster.
pub fn read_dump(j: &Json) -> (r: Option<OsdDump>)
    ensures
        r.model() == dump_in(*j),
{
    if !j.is_shaped(2, 2) {
        return None;
    }
    match (j.list_slot("osds", 0), j.list_slot("pools", 1)) {
        (Some(os), Some(ps)) => match (read_osd_entries(os), read_pool_entries(ps)) {
            (Some(osds), Some(pools)) => Some(OsdDump { osds, pools }),
            _ => None,
        },
        _ => None,
    }
}

// ── Placement groups ─────────────────────────────────────────────────────────

/// A placement group: its state, and the OSDs it is mapped to.
#[derive(Debug)]
pub struct PgBrief {
    pub pgid: String,
    pub state: String,
    pub up: Vec<i64>,
    pub acting: Vec<i64>,
}

/// A `PgBrief` with its texts as characters.
pub struct PgBriefModel {
    pub pgid: Seq<char>,
    pub state: Seq<char>,
    pub up: Seq<i64>,
    pub acting: Seq<i64>,
}

impl Model for PgBrief {
    type M = PgBriefModel;

    open spec fn model(&self) -> PgBriefModel {
        PgBriefModel {
            pgid: self.pgid@,
            state: self.state@,
            up: self.up@,
            acting: self.acting@,
        }
    }
}

/// The number of the pool a placement group's name begins with.
pub open spec fn pool_number(pgid: Seq<char>) -> Option<int> {
    text::signed_value(text::pieces(pgid, '.')[0])
}

impl PgBriefModel {
    /// The OSDs that hold the group: those acting, or those it is mapped to
    /// when none acts.
    pub open spec fn holders(self) -> Seq<i64> {
        if self.acting.len() == 0 {
            self.up
        } else {
            self.acting
        }
    }
}

impl PgBrief {
    /// The number of the group's pool.
    pub fn pool(&self) -> (r: Option<i64>)
        ensures
            match r {
                Some(n) => pool_number(self.pgid@) == Some(n as int),
                None => pool_number(self.pgid@) is None,
            },
    {
        pool_of(self.pgid.as_str())
    }

    /// The OSDs that hold the group.
    pub fn holders(&self) -> (r: &Vec<i64>)
        ensures
            r@ == self.model().holders(),
    {
        if self.acting.len() == 0 {
            &self.up
        } else {
            &self.acting
        }
    }
}

/// The number of the pool a placement group's name begins with.
pub fn pool_of(pgid: &str) -> (r: Option<i64>)
    ensures
        match r {
            Some(n) => pool_number(pgid@) == Some(n as int),
            None => pool_number(pgid@) is None,
        },
{
    let ps = text::split(pgid, '.');
    proof {
        assert(text::views(ps@).len() == ps@.len());
        assert(text::pieces(pgid@, '.').len() >= 1);
        assert(text::views(ps@)[0] == ps@[0]@);
    }
    text::parse_signed(ps[0])
}

/// The integers of a list of documents; nothing when one is no integer.
pub open spec fn ints_in(l: Seq<Json>) -> Option<Seq<i64>>
    decreases l.len(),
{
    if l.len() == 0 {
        Some(seq![])
    } else {
        match (ints_in(l.drop_last()), json::int_of(l.last())) {
            (Some(s), Some(n)) => Some(s.push(n)),
            _ => None,
        }
    }
}

proof fn lemma_ints_none(l: Seq<Json>, i: int)
    requires
        0 <= i <= l.len(),
        ints_in(l.take(i)) is None,
    ensures
        ints_in(l) is None,
    decreases l.len() - i,
{
    if i < l.len() {
        assert(l.take(i + 1).drop_last() =~= l.take(i));
        lemma_ints_none(l, i + 1);
    } else {
        assert(l.take(i) =~= l);
    }
}

/// The integers of an optional list.
pub open spec fn opt_ints(o: Option<Vec<i64>>) -> Option<Seq<i64>> {
    match o {
        Some(v) => Some(v@),
        None => None,
    }
}

/// Reads a list of integers.
pub fn read_ints(l: &Vec<Json>) -> (r: Option<Vec<i64>>)
    ensures
        opt_ints(r) == ints_in(l@),
{
    let mut out: Vec<i64> = Vec::new();
    let mut i: usize = 0;
    assert(l@.take(0) =~= seq![]);
    while i < l.len()
        invariant
            i <= l@.len(),
            ints_in(l@.take(i as int)) == Some(out@),
        decreases l@.len() - i,
    {
        assert(l@.take(i + 1).drop_last() =~= l@.take(i as int));
        match l[i].as_i64() {
            Some(n) => out.push(n),
            None => {
                proof {
                    lemma_ints_none(l@, i + 1);
                }
                return None;
            },
        }
        i += 1;
    }
    assert(l@.take(l@.len() as int) =~= l@);
    Some(out)
}

/// A list of integers that may be left out.
pub open spec fn ints_at(j: Json, key: Seq<char>, at: int) -> Option<Seq<i64>> {
    match json::slot(j, key, at) {
        None => Some(seq![]),
        Some(f) => match json::items_of(f) {
            Some(l) => ints_in(l),
            None => None,
        },
    }
}

fn read_ints_at(j: &Json, key: &str, at: usize) -> (r: Option<Vec<i64>>)
    ensures
        opt_ints(r) == ints_at(*j, key@, at as int),
{
    match j.get_slot(key, at) {
        None => {
            let none: Vec<i64> = Vec::new();
            assert(none@ =~= seq![]);
            Some(none)
        },
        Some(f) => match f.as_list() {
            Some(l) => read_ints(l),
            None => None,
        },
    }
}

/// The placement group an entry describes.
pub open spec fn pg_entry(j: Json) -> Option<PgBriefModel> {
    if !json::shaped(j, 2, 4) {
        None
    } else {
        match (
            json::text_slot(j, "pgid"@, 0),
            json::text_slot(j, "state"@, 1),
            ints_at(j, "up"@, 2),
            ints_at(j, "acting"@, 3),
        ) {
            (Some(pgid), Some(state), Some(up), Some(acting)) => Some(
                PgBriefModel { pgid, state, up, acting },
            ),
            _ => None,
        }
    }
}

fn read_pg(j: &Json) -> (r: Option<PgBrief>)
    ensures
        r.model() == pg_entry(*j),
{
    if !j.is_shaped(2, 4) {
        return None;
    }
    match (
        j.str_slot("pgid", 0),
        j.str_slot("state", 1),
        read_ints_at(j, "up", 2),
        read_ints_at(j, "acting", 3),
    ) {
        (Some(pgid), Some(state), Some(up), Some(acting)) => Some(
            PgBrief { pgid: pgid.to_owned(), state: state.to_owned(), up, acting },
        ),
        _ => None,
    }
}

/// The placement groups that entries describe; nothing when one describes none.
pub open spec fn pg_entries(l: Seq<Json>) -> Option<Seq<PgBriefModel>>
    decreases l.len(),
{
    if l.len() == 0 {
        Some(seq![])
    } else {
        match (pg_entries(l.drop_last()), pg_entry(l.last())) {
            (Some(s), Some(e)) => Some(s.push(e)),
            _ => None,
        }
    }
}

proof fn lemma_pg_entries_none(l: Seq<Json>, i: int)
    requires
        0 <= i <= l.len(),
        pg_entries(l.take(i)) is None,
    ensures
        pg_entries(l) is None,
    decreases l.len() - i,
{
    if i < l.len() {
        assert(l.take(i + 1).drop_last() =~= l.take(i));
        lemma_pg_entries_none(l, i + 1);
    } else {
        assert(l.take(i) =~= l);
    }
}

fn read_pgs(l: &Vec<Json>) -> (r: Option<Vec<PgBrief>>)
    ensures
        r.model() == pg_entries(l@),
{
    let mut out: Vec<PgBrief> = Vec::new();
    let mut i: usize = 0;
    assert(l@.take(0) =~= seq![]);
    assert(out.model() =~= seq![]);
    while i < l.len()
        invariant
            i <= l@.len(),
            pg_entries(l@.take(i as int)) == Some(out.model()),
        decreases l@.len() - i,
    {
        assert(l@.take(i + 1).drop_last() =~= l@.take(i as int));
        let ghost before = out.model();
        match read_pg(&l[i]) {
            Some(e) => {
                out.push(e);
                assert(out.model() =~= before.push(e.model()));
            },
            None => {
                proof {
                    lemma_pg_entries_none(l@, i + 1);
                }
                return None;
            },
        }
        i += 1;
    }
    assert(l@.take(l@.len() as int) =~= l@);
    Some(out)
}

/// The placement groups a document lists: under `pg_stats`, or by itself.
pub open spec fn pgs_in(j: Json) -> Option<Seq<PgBriefModel>> {
    match json::items_at(j, "pg_stats"@) {
        Some(l) => pg_entries(l),
        None => match json::items_of(j) {
            Some(l) => pg_entries(l),
            None => None,
        },
    }
}

/// The placement groups a command printed, or the complaint that it printed
/// none.
pub open spec fn pgs_result(cmd: Seq<char>, raw: Seq<char>) -> Result<
    Seq<PgBriefModel>,
    CmdErrorModel,
> {
    match exec::json_result(cmd, raw) {
        Err(e) => Err(e),
        Ok(j) => match pgs_in(j) {
            Some(pgs) => Ok(pgs),
            None => Err(CmdErrorModel::Parse { cmd, detail: "not a list of placement groups"@ }),
        },
    }
}

/// Reads the placement groups a document lists, in either of the two shapes Ceph
/// prints them in.
pub fn pgs_of(j: &Json) -> (r: Option<Vec<PgBrief>>)
    ensures
        r.model() == pgs_in(*j),
{
    match j.list_at("pg_stats") {
        Some(l) => read_pgs(l),
        None => match j.as_list() {
            Some(l) => read_pgs(l),
            None => None,
        },
    }
}

/// A list of placement groups and a dictionary that has that list under `pg_stats` say
/// the same.
pub proof fn both_shapes_say_the_same(list: Json, wrapped: Json)
    requires
        list is List,
        json::field(wrapped, "pg_stats"@) == Some(list),
    ensures
        pgs_in(wrapped) == pgs_in(list),
{
}

/// What has no list of placement groups is unreadable, never an empty list: neither a
/// dictionary without a list under `pg_stats`, nor anything that is no list.
pub proof fn no_list_is_no_empty_list(j: Json)
    requires
        !(j is List),
        json::items_at(j, "pg_stats"@) is None,
    ensures
        pgs_in(j) is None,
{
}

/// Reads the placement groups a command printed, in either of the two shapes
/// Ceph prints them in.
pub fn parse_pgs_brief(cmd: &str, raw: &str) -> (r: Result<Vec<PgBrief>, CmdError>)
    ensures
        r.model() == pgs_result(cmd@, raw@),
{
    match exec::parse_json(cmd, raw) {
        Err(e) => Err(e),
        Ok(j) => match pgs_of(&j) {
            Some(v) => Ok(v),
            None => Err(CmdError::parse(cmd, "not a list of placement groups")),
        },
    }
}

// ── What is lost ─────────────────────────────────────────────────────────────

/// Placement groups by the name of their pool.
#[derive(Debug)]
pub struct PgsByPool {
    pub pools: Vec<(String, Names)>,
}

/// Where the pool `name` stands among the first, or the length when it does not.
pub open spec fn pool_place(m: Seq<(Seq<char>, Seq<Seq<char>>)>, name: Seq<char>) -> int
    decreases m.len(),
{
    if m.len() == 0 || m[0].0 == name {
        0
    } else {
        1 + pool_place(m.drop_first(), name)
    }
}

proof fn lemma_pool_place_is(m: Seq<(Seq<char>, Seq<Seq<char>>)>, name: Seq<char>, i: int)
    requires
        0 <= i <= m.len(),
        i < m.len() ==> m[i].0 == name,
        forall|k: int| 0 <= k < i ==> (#[trigger] m[k]).0 != name,
    ensures
        pool_place(m, name) == i,
    decreases i,
{
    if i > 0 {
        assert(m[0].0 != name);
        let t = m.drop_first();
        assert forall|k: int| 0 <= k < i - 1 implies (#[trigger] t[k]).0 != name by {
            assert(t[k] == m[k + 1]);
        }
        if i < m.len() {
            assert(t[i - 1] == m[i]);
        }
        lemma_pool_place_is(t, name, i - 1);
    }
}

/// `m` with the group `pg` under the pool `name`. A pool that is new comes last.
pub open spec fn with_pg(
    m: Seq<(Seq<char>, Seq<Seq<char>>)>,
    name: Seq<char>,
    pg: Seq<char>,
) -> Seq<(Seq<char>, Seq<Seq<char>>)> {
    let i = pool_place(m, name);
    if 0 <= i < m.len() {
        m.update(i, (m[i].0, names::inserted(m[i].1, pg)))
    } else {
        m.push((name, names::inserted(seq![], pg)))
    }
}

impl Model for PgsByPool {
    type M = Seq<(Seq<char>, Seq<Seq<char>>)>;

    open spec fn model(&self) -> Seq<(Seq<char>, Seq<Seq<char>>)> {
        self.pools.model()
    }
}

/// How many placement groups there are in all pools.
pub open spec fn pg_count(m: Seq<(Seq<char>, Seq<Seq<char>>)>) -> nat
    decreases m.len(),
{
    if m.len() == 0 {
        0
    } else {
        pg_count(m.drop_last()) + m.last().1.len()
    }
}

impl PgsByPool {
    /// No placement group.
    pub fn new() -> (r: PgsByPool)
        ensures
            r.model() == Seq::<(Seq<char>, Seq<Seq<char>>)>::empty(),
    {
        let r = PgsByPool { pools: Vec::new() };
        assert(r.model() =~= seq![]);
        r
    }

    fn place(&self, name: &str) -> (r: Option<usize>)
        ensures
            match r {
                Some(i) => i < self.pools@.len() && pool_place(self.model(), name@) == i,
                None => pool_place(self.model(), name@) == self.pools@.len(),
            },
    {
        let mut i: usize = 0;
        while i < self.pools.len()
            invariant
                i <= self.pools@.len(),
                forall|k: int| 0 <= k < i ==> (#[trigger] self.model()[k]).0 != name@,
            decreases self.pools@.len() - i,
        {
            assert(self.model()[i as int].0 == self.pools@[i as int].0@);
            if text::same(self.pools[i].0.as_str(), name) {
                proof {
                    lemma_pool_place_is(self.model(), name@, i as int);
                }
                return Some(i);
            }
            i += 1;
        }
        proof {
            lemma_pool_place_is(self.model(), name@, self.pools@.len() as int);
        }
        None
    }

    /// The groups of a pool.
    pub fn get(&self, name: &str) -> (r: Option<&Names>)
        ensures
            match r {
                Some(g) => {
                    let i = pool_place(self.model(), name@);
                    0 <= i < self.model().len() && self.model()[i] == (name@, g.model())
                },
                None => pool_place(self.model(), name@) == self.model().len(),
            },
    {
        match self.place(name) {
            Some(i) => {
                proof {
                    lemma_pool_place_holds(self.model(), name@);
                }
                Some(&self.pools[i].1)
            },
            None => None,
        }
    }

    /// Puts a group under a pool.
    pub fn put(&mut self, name: &str, pg: &str)
        ensures
            final(self).model() == with_pg(old(self).model(), name@, pg@),
    {
        let ghost before = self.model();
        match self.place(name) {
            Some(i) => {
                let (pool, mut groups) = self.pools.remove(i);
                groups.insert(pg);
                self.pools.insert(i, (pool, groups));
                assert(self.model() =~= with_pg(before, name@, pg@));
            },
            None => {
                let mut groups = Names::new();
                groups.insert(pg);
                self.pools.push((name.to_owned(), groups));
                assert(self.model() =~= with_pg(before, name@, pg@));
            },
        }
    }

    /// How many pools there are.
    pub fn len(&self) -> (r: usize)
        ensures
            r == self.model().len(),
    {
        self.pools.len()
    }

    /// How many groups there are in all pools, unless that is more than can be
    /// counted.
    pub fn count(&self) -> (r: Option<usize>)
        ensures
            match r {
                Some(n) => pg_count(self.model()) == n,
                None => pg_count(self.model()) > usize::MAX,
            },
    {
        let mut n: usize = 0;
        let mut i: usize = 0;
        let ghost m = self.model();
        assert(m.take(0) =~= seq![]);
        while i < self.pools.len()
            invariant
                m == self.model(),
                i <= self.pools@.len(),
                n == pg_count(m.take(i as int)),
            decreases self.pools@.len() - i,
        {
            let more = self.pools[i].1.len();
            assert(m.take(i + 1).drop_last() =~= m.take(i as int));
            assert(m[i as int].1.len() == more);
            if more > usize::MAX - n {
                proof {
                    lemma_count_grows(m, i + 1);
                }
                return None;
            }
            n += more;
            i += 1;
        }
        assert(m.take(m.len() as int) =~= m);
        Some(n)
    }
}

proof fn lemma_count_grows(m: Seq<(Seq<char>, Seq<Seq<char>>)>, i: int)
    requires
        0 <= i <= m.len(),
    ensures
        pg_count(m.take(i)) <= pg_count(m),
    decreases m.len() - i,
{
    if i < m.len() {
        assert(m.take(i + 1).drop_last() =~= m.take(i));
        lemma_count_grows(m, i + 1);
    } else {
        assert(m.take(i) =~= m);
    }
}

pub proof fn lemma_pool_place_holds(m: Seq<(Seq<char>, Seq<Seq<char>>)>, name: Seq<char>)
    ensures
        0 <= pool_place(m, name) <= m.len(),
        pool_place(m, name) < m.len() ==> m[pool_place(m, name)].0 == name,
    decreases m.len(),
{
    if m.len() > 0 && m[0].0 != name {
        lemma_pool_place_holds(m.drop_first(), name);
    }
}

/// Whether a placement group has a holder, and every holder is in `down`.
pub open spec fn unreachable(pg: PgBriefModel, down: Set<i64>) -> bool {
    pg.holders().len() > 0 && forall|i: int|
        0 <= i < pg.holders().len() ==> down.contains(#[trigger] pg.holders()[i])
}

/// The name of the pool of a placement group, if the OSD map has it.
pub open spec fn pool_name_of(pg: PgBriefModel, dump: OsdDumpModel) -> Option<Seq<char>> {
    match pool_number(pg.pgid) {
        Some(n) => if pool_map(dump.pools).contains_key(n as i64) {
            Some(pool_map(dump.pools)[n as i64])
        } else {
            None
        },
        None => None,
    }
}

/// Whether a placement group is lost: every OSD that holds it is down, and its
/// pool is known.
pub open spec fn is_lost(pg: PgBriefModel, dump: OsdDumpModel) -> bool {
    unreachable(pg, dump.down()) && pool_name_of(pg, dump) is Some
}

/// The lost groups of `pgs` by pool.
pub open spec fn lost_of(dump: OsdDumpModel, pgs: Seq<PgBriefModel>) -> Seq<
    (Seq<char>, Seq<Seq<char>>),
>
    decreases pgs.len(),
{
    if pgs.len() == 0 {
        seq![]
    } else {
        let before = lost_of(dump, pgs.drop_last());
        if is_lost(pgs.last(), dump) {
            with_pg(before, pool_name_of(pgs.last(), dump)->0, pgs.last().pgid)
        } else {
            before
        }
    }
}

/// The OSDs that hold a lost group.
pub open spec fn lost_holders(dump: OsdDumpModel, pgs: Seq<PgBriefModel>) -> Set<i64> {
    Set::new(
        |id: i64|
            exists|i: int|
                0 <= i < pgs.len() && is_lost(#[trigger] pgs[i], dump) && pgs[i].holders().contains(
                    id,
                ),
    )
}

fn all_down(on: &Vec<i64>, down: &BTreeSet<i64>) -> (r: bool)
    ensures
        r == (forall|i: int| 0 <= i < on@.len() ==> down@.contains(#[trigger] on@[i])),
{
    let mut i: usize = 0;
    while i < on.len()
        invariant
            i <= on@.len(),
            forall|k: int| 0 <= k < i ==> down@.contains(#[trigger] on@[k]),
        decreases on@.len() - i,
    {
        if !down.contains(&on[i]) {
            assert(!down@.contains(on@[i as int]));
            return false;
        }
        i += 1;
    }
    true
}

/// The placement groups with no reachable copy, by pool, and the OSDs that hold
/// them.
pub fn lost_pgs(dump: &OsdDump, pgs: &Vec<PgBrief>) -> (r: (PgsByPool, BTreeSet<i64>))
    ensures
        r.0.model() == lost_of(dump.model(), pgs.model()),
        r.1@ == lost_holders(dump.model(), pgs.model()),
{
    let down = dump.down();
    let pool_names = dump.pool_names();
    let mut lost = PgsByPool::new();
    let mut holders: BTreeSet<i64> = BTreeSet::new();
    let ghost d = dump.model();
    let ghost all = pgs.model();
    let mut i: usize = 0;
    assert(all.take(0) =~= seq![]);
    assert(holders@ =~= lost_holders(d, all.take(0)));
    while i < pgs.len()
        invariant
            d == dump.model(),
            all == pgs.model(),
            down@ == d.down(),
            text_map(pool_names@) == pool_map(d.pools),
            i <= pgs@.len(),
            lost.model() == lost_of(d, all.take(i as int)),
            holders@ == lost_holders(d, all.take(i as int)),
        decreases pgs@.len() - i,
    {
        let pg = &pgs[i];
        let ghost m = pg.model();
        assert(all[i as int] == m);
        assert(all.take(i + 1).drop_last() =~= all.take(i as int));
        assert(all.take(i + 1).last() == m);
        let ghost before = holders@;
        let on = pg.holders();
        let gone = on.len() > 0 && all_down(on, &down);
        assert(gone == unreachable(m, d.down()));
        let name = match pg.pool() {
            Some(id) => pool_names.get(&id),
            None => None,
        };
        proof {
            match pool_number(m.pgid) {
                Some(n) => {
                    assert(text_map(pool_names@).contains_key(n as i64)
                        == pool_names@.contains_key(n as i64));
                },
                None => {},
            }
        }
        assert(match name {
            Some(s) => pool_name_of(m, d) == Some(s@),
            None => pool_name_of(m, d) is None,
        });
        let mut was_lost = false;
        if gone {
            if let Some(pool) = name {
                was_lost = true;
                lost.put(pool.as_str(), pg.pgid.as_str());
                let mut k: usize = 0;
                while k < on.len()
                    invariant
                        k <= on@.len(),
                        forall|id: i64|
                            holders@.contains(id) <==> before.contains(id) || exists|x: int|
                                0 <= x < k && #[trigger] on@[x] == id,
                    decreases on@.len() - k,
                {
                    let ghost h = holders@;
                    holders.insert(on[k]);
                    assert(holders@ == h.insert(on@[k as int]));
                    assert forall|id: i64| holders@.contains(id) implies before.contains(id)
                        || exists|x: int| 0 <= x < k + 1 && #[trigger] on@[x] == id by {
                        if !h.contains(id) {
                            assert(on@[k as int] == id);
                        }
                    }
                    assert forall|id: i64|
                        before.contains(id) || (exists|x: int|
                            0 <= x < k + 1 && #[trigger] on@[x] == id) implies holders@.contains(
                        id,
                    ) by {
                        if !before.contains(id) {
                            let x = choose|x: int| 0 <= x < k + 1 && #[trigger] on@[x] == id;
                            if x < k {
                                assert(h.contains(id));
                            }
                        }
                    }
                    k += 1;
                }
            }
        }
        proof {
            assert(was_lost == is_lost(m, d));
            assert forall|id: i64| holders@.contains(id) <==> lost_holders(
                d,
                all.take(i + 1),
            ).contains(id) by {
                let t0 = all.take(i as int);
                let t1 = all.take(i + 1);
                if before.contains(id) {
                    let k = choose|k: int|
                        0 <= k < t0.len() && is_lost(#[trigger] t0[k], d) && t0[k].holders().contains(
                            id,
                        );
                    assert(t1[k] == t0[k]);
                }
                if was_lost && m.holders().contains(id) {
                    assert(t1[i as int] == m);
                }
                if lost_holders(d, t1).contains(id) {
                    let k = choose|k: int|
                        0 <= k < t1.len() && is_lost(#[trigger] t1[k], d) && t1[k].holders().contains(
                            id,
                        );
                    if k < i {
                        assert(t0[k] == t1[k]);
                    } else {
                        let x = choose|x: int| 0 <= x < on@.len() && on@[x] == id;
                        assert(on@[x] == id);
                    }
                }
            }
            assert(holders@ =~= lost_holders(d, all.take(i + 1)));
        }
        i += 1;
    }
    assert(all.take(all.len() as int) =~= all);
    (lost, holders)
}

// ── Shorter reports ──────────────────────────────────────────────────────────

/// What `f` reads from every document; nothing when it reads nothing from one.
pub open spec fn every<T>(l: Seq<Json>, f: spec_fn(Json) -> Option<T>) -> Option<Seq<T>>
    decreases l.len(),
{
    if l.len() == 0 {
        Some(seq![])
    } else {
        match (every(l.drop_last(), f), f(l.last())) {
            (Some(s), Some(e)) => Some(s.push(e)),
            _ => None,
        }
    }
}

pub proof fn lemma_every_none<T>(l: Seq<Json>, f: spec_fn(Json) -> Option<T>, i: int)
    requires
        0 <= i <= l.len(),
        every(l.take(i), f) is None,
    ensures
        every(l, f) is None,
    decreases l.len() - i,
{
    if i < l.len() {
        assert(l.take(i + 1).drop_last() =~= l.take(i));
        lemma_every_none(l, f, i + 1);
    } else {
        assert(l.take(i) =~= l);
    }
}

/// How many OSDs there are, how many run and how many hold data.
#[derive(Clone, Copy, Debug, PartialEq, Eq, Structural)]
pub struct OsdStat {
    pub num_osds: u64,
    pub num_up_osds: u64,
    pub num_in_osds: u64,
}

impl Model for OsdStat {
    type M = OsdStat;

    open spec fn model(&self) -> OsdStat {
        *self
    }
}

/// The counts a document states.
pub open spec fn stat_in(j: Json) -> Option<OsdStat> {
    if !json::shaped(j, 3, 3) {
        None
    } else {
        match (
            json::unsigned_slot(j, "num_osds"@, 0),
            json::unsigned_slot(j, "num_up_osds"@, 1),
            json::unsigned_slot(j, "num_in_osds"@, 2),
        ) {
            (Some(num_osds), Some(num_up_osds), Some(num_in_osds)) => Some(
                OsdStat { num_osds, num_up_osds, num_in_osds },
            ),
            _ => None,
        }
    }
}

/// Reads the counts of OSDs.
pub fn read_stat(j: &Json) -> (r: Option<OsdStat>)
    ensures
        r == stat_in(*j),
{
    if !j.is_shaped(3, 3) {
        return None;
    }
    match (
        j.u64_slot("num_osds", 0),
        j.u64_slot("num_up_osds", 1),
        j.u64_slot("num_in_osds", 2),
    ) {
        (Some(num_osds), Some(num_up_osds), Some(num_in_osds)) => Some(
            OsdStat { num_osds, num_up_osds, num_in_osds },
        ),
        _ => None,
    }
}

/// A filesystem, or anything else that Ceph lists by name.
#[derive(Debug)]
pub struct FsEntry {
    pub name: String,
}

impl Model for FsEntry {
    type M = Seq<char>;

    open spec fn model(&self) -> Seq<char> {
        self.name@
    }
}

/// The name an entry has.
pub open spec fn entry_name(j: Json) -> Option<Seq<char>> {
    if json::shaped(j, 1, 1) {
        json::text_slot(j, "name"@, 0)
    } else {
        None
    }
}

fn read_name(j: &Json) -> (r: Option<&str>)
    ensures
        text::opt_view(r) == entry_name(*j),
{
    if j.is_shaped(1, 1) {
        j.str_slot("name", 0)
    } else {
        None
    }
}

/// The names a document lists.
pub open spec fn named_in(j: Json) -> Option<Seq<Seq<char>>> {
    match json::items_of(j) {
        Some(l) => every(l, |e: Json| entry_name(e)),
        None => None,
    }
}

/// Reads a list of named things. What is no list is nothing, never empty.
pub fn read_named(j: &Json) -> (r: Option<Vec<FsEntry>>)
    ensures
        r.model() == named_in(*j),
{
    let l = match j.as_list() {
        Some(l) => l,
        None => return None,
    };
    let mut out: Vec<FsEntry> = Vec::new();
    let mut i: usize = 0;
    let ghost f = |e: Json| entry_name(e);
    assert(l@.take(0) =~= seq![]);
    assert(out.model() =~= seq![]);
    while i < l.len()
        invariant
            f == (|e: Json| entry_name(e)),
            json::items_of(*j) == Some(l@),
            i <= l@.len(),
            every(l@.take(i as int), f) == Some(out.model()),
        decreases l@.len() - i,
    {
        assert(l@.take(i + 1).drop_last() =~= l@.take(i as int));
        let ghost before = out.model();
        match read_name(&l[i]) {
            Some(n) => {
                out.push(FsEntry { name: n.to_owned() });
                assert(out.model() =~= before.push(n@));
            },
            None => {
                proof {
                    lemma_every_none(l@, f, i + 1);
                }
                return None;
            },
        }
        i += 1;
    }
    assert(l@.take(l@.len() as int) =~= l@);
    Some(out)
}

/// The OSDs that Ceph says can be destroyed without losing anything.
#[derive(Debug)]
pub struct SafeToDestroyReport {
    pub safe_to_destroy: Vec<i64>,
}

impl Model for SafeToDestroyReport {
    type M = Seq<i64>;

    open spec fn model(&self) -> Seq<i64> {
        self.safe_to_destroy@
    }
}

/// The OSDs a report names.
pub open spec fn safe_in(j: Json) -> Option<Seq<i64>> {
    if !json::shaped(j, 1, 1) {
        None
    } else {
        match json::items_slot(j, "safe_to_destroy"@, 0) {
            Some(l) => ints_in(l),
            None => None,
        }
    }
}

/// Reads which OSDs can be destroyed.
pub fn read_safe(j: &Json) -> (r: Option<SafeToDestroyReport>)
    ensures
        r.model() == safe_in(*j),
{
    if !j.is_shaped(1, 1) {
        return None;
    }
    match j.list_slot("safe_to_destroy", 0) {
        Some(l) => match read_ints(l) {
            Some(safe_to_destroy) => Some(SafeToDestroyReport { safe_to_destroy }),
            None => None,
        },
        None => None,
    }
}

// ── Volumes ──────────────────────────────────────────────────────────────────

/// A volume that carries an OSD.
#[derive(Debug)]
pub struct LvmVolume {
    pub devices: Vec<String>,
    pub tags: Vec<(String, String)>,
    pub kind: String,
}

/// An `LvmVolume` with its texts as characters.
pub struct LvmVolumeModel {
    pub devices: Seq<Seq<char>>,
    pub tags: Seq<(Seq<char>, Seq<char>)>,
    pub kind: Seq<char>,
}

impl Model for LvmVolume {
    type M = LvmVolumeModel;

    open spec fn model(&self) -> LvmVolumeModel {
        LvmVolumeModel {
            devices: self.devices.model(),
            tags: self.tags.model(),
            kind: self.kind@,
        }
    }
}

/// What is listed first under `key`.
pub open spec fn looked_up(l: Seq<(Seq<char>, Seq<char>)>, key: Seq<char>) -> Option<Seq<char>>
    decreases l.len(),
{
    if l.len() == 0 {
        None
    } else if l[0].0 == key {
        Some(l[0].1)
    } else {
        looked_up(l.drop_first(), key)
    }
}

/// Finds what is listed first under `key`.
pub fn look_up<'a>(l: &'a Vec<(String, String)>, key: &str) -> (r: Option<&'a str>)
    ensures
        text::opt_view(r) == looked_up(l.model(), key@),
{
    let mut i: usize = 0;
    assert(l.model().skip(0) =~= l.model());
    while i < l.len()
        invariant
            i <= l@.len(),
            looked_up(l.model(), key@) == looked_up(l.model().skip(i as int), key@),
        decreases l@.len() - i,
    {
        let ghost rest = l.model().skip(i as int);
        assert(rest[0] == l.model()[i as int]);
        assert(l.model()[i as int] == l@[i as int].model());
        if text::same(l[i].0.as_str(), key) {
            return Some(l[i].1.as_str());
        }
        assert(rest.drop_first() =~= l.model().skip(i + 1));
        i += 1;
    }
    None
}

impl LvmVolume {
    /// The id of the cluster the volume belongs to.
    pub fn cluster_fsid(&self) -> (r: Option<&str>)
        ensures
            text::opt_view(r) == looked_up(self.model().tags, "ceph.cluster_fsid"@),
    {
        look_up(&self.tags, "ceph.cluster_fsid")
    }
}

/// A list of texts that may be left out.
pub open spec fn texts_at(j: Json, key: Seq<char>, at: int) -> Option<Seq<Seq<char>>> {
    match json::slot(j, key, at) {
        None => Some(seq![]),
        Some(f) => match json::items_of(f) {
            Some(l) => every(l, |e: Json| json::text_of(e)),
            None => None,
        },
    }
}

fn read_texts_at(j: &Json, key: &str, at: usize) -> (r: Option<Vec<String>>)
    ensures
        r.model() == texts_at(*j, key@, at as int),
{
    let mut out: Vec<String> = Vec::new();
    assert(out.model() =~= seq![]);
    let l = match j.get_slot(key, at) {
        None => return Some(out),
        Some(f) => match f.as_list() {
            Some(l) => l,
            None => return None,
        },
    };
    let mut i: usize = 0;
    let ghost f = |e: Json| json::text_of(e);
    assert(l@.take(0) =~= seq![]);
    assert(texts_at(*j, key@, at as int) == every(l@, f));
    while i < l.len()
        invariant
            f == (|e: Json| json::text_of(e)),
            texts_at(*j, key@, at as int) == every(l@, f),
            i <= l@.len(),
            every(l@.take(i as int), f) == Some(out.model()),
        decreases l@.len() - i,
    {
        assert(l@.take(i + 1).drop_last() =~= l@.take(i as int));
        let ghost before = out.model();
        match l[i].as_str() {
            Some(n) => {
                out.push(n.to_owned());
                assert(out.model() =~= before.push(n@));
            },
            None => {
                proof {
                    lemma_every_none(l@, f, i + 1);
                }
                return None;
            },
        }
        i += 1;
    }
    assert(l@.take(l@.len() as int) =~= l@);
    Some(out)
}

/// The entries of a dictionary of texts; nothing when one is no text.
pub open spec fn text_entries(d: Seq<(String, Json)>) -> Option<Seq<(Seq<char>, Seq<char>)>>
    decreases d.len(),
{
    if d.len() == 0 {
        Some(seq![])
    } else {
        match (text_entries(d.drop_last()), json::text_of(d.last().1)) {
            (Some(s), Some(t)) => Some(s.push((d.last().0@, t))),
            _ => None,
        }
    }
}

proof fn lemma_text_entries_none(d: Seq<(String, Json)>, i: int)
    requires
        0 <= i <= d.len(),
        text_entries(d.take(i)) is None,
    ensures
        text_entries(d) is None,
    decreases d.len() - i,
{
    if i < d.len() {
        assert(d.take(i + 1).drop_last() =~= d.take(i));
        lemma_text_entries_none(d, i + 1);
    } else {
        assert(d.take(i) =~= d);
    }
}

/// Reads a dictionary of texts.
pub fn read_text_entries(d: &Vec<(String, Json)>) -> (r: Option<Vec<(String, String)>>)
    ensures
        r.model() == text_entries(d@),
{
    let mut out: Vec<(String, String)> = Vec::new();
    let mut i: usize = 0;
    assert(d@.take(0) =~= seq![]);
    assert(out.model() =~= seq![]);
    while i < d.len()
        invariant
            i <= d@.len(),
            text_entries(d@.take(i as int)) == Some(out.model()),
        decreases d@.len() - i,
    {
        assert(d@.take(i + 1).drop_last() =~= d@.take(i as int));
        let ghost before = out.model();
        match d[i].1.as_str() {
            Some(t) => {
                out.push((d[i].0.clone(), t.to_owned()));
                assert(out.model() =~= before.push((d@[i as int].0@, t@)));
            },
            None => {
                proof {
                    lemma_text_entries_none(d@, i + 1);
                }
                return None;
            },
        }
        i += 1;
    }
    assert(d@.take(d@.len() as int) =~= d@);
    Some(out)
}

/// A dictionary of texts that may be left out.
pub open spec fn tags_at(j: Json, key: Seq<char>, at: int) -> Option<Seq<(Seq<char>, Seq<char>)>> {
    match json::slot(j, key, at) {
        None => Some(seq![]),
        Some(f) => match json::entries_of(f) {
            Some(d) => text_entries(d),
            None => None,
        },
    }
}

fn read_tags_at(j: &Json, key: &str, at: usize) -> (r: Option<Vec<(String, String)>>)
    ensures
        r.model() == tags_at(*j, key@, at as int),
{
    match j.get_slot(key, at) {
        None => {
            let none: Vec<(String, String)> = Vec::new();
            assert(none.model() =~= seq![]);
            Some(none)
        },
        Some(Json::Dict(d)) => read_text_entries(d),
        Some(_) => None,
    }
}

/// A text that may be left out.
pub open spec fn kind_at(j: Json) -> Option<Seq<char>> {
    match json::slot(j, "type"@, 2) {
        None => Some(seq![]),
        Some(f) => json::text_of(f),
    }
}

/// The volume an entry describes.
pub open spec fn volume_in(j: Json) -> Option<LvmVolumeModel> {
    if !json::shaped(j, 0, 3) {
        None
    } else {
        match (texts_at(j, "devices"@, 0), tags_at(j, "tags"@, 1), kind_at(j)) {
            (Some(devices), Some(tags), Some(kind)) => Some(LvmVolumeModel { devices, tags, kind }),
            _ => None,
        }
    }
}

fn read_volume(j: &Json) -> (r: Option<LvmVolume>)
    ensures
        r.model() == volume_in(*j),
{
    if !j.is_shaped(0, 3) {
        return None;
    }
    let kind = match j.get_slot("type", 2) {
        None => {
            let none = String::new();
            assert(none@ =~= seq![]);
            Some(none)
        },
        Some(f) => match f.as_str() {
            Some(k) => Some(k.to_owned()),
            None => None,
        },
    };
    match (read_texts_at(j, "devices", 0), read_tags_at(j, "tags", 1), kind) {
        (Some(devices), Some(tags), Some(kind)) => Some(LvmVolume { devices, tags, kind }),
        _ => None,
    }
}

/// The volumes a list describes; nothing when an entry describes none.
pub open spec fn volumes_in(j: Json) -> Option<Seq<LvmVolumeModel>> {
    match json::items_of(j) {
        Some(l) => every(l, |e: Json| volume_in(e)),
        None => None,
    }
}

fn read_volumes(j: &Json) -> (r: Option<Vec<LvmVolume>>)
    ensures
        r.model() == volumes_in(*j),
{
    let l = match j.as_list() {
        Some(l) => l,
        None => return None,
    };
    let mut out: Vec<LvmVolume> = Vec::new();
    let mut i: usize = 0;
    let ghost f = |e: Json| volume_in(e);
    assert(l@.take(0) =~= seq![]);
    assert(out.model() =~= seq![]);
    while i < l.len()
        invariant
            f == (|e: Json| volume_in(e)),
            json::items_of(*j) == Some(l@),
            i <= l@.len(),
            every(l@.take(i as int), f) == Some(out.model()),
        decreases l@.len() - i,
    {
        assert(l@.take(i + 1).drop_last() =~= l@.take(i as int));
        let ghost before = out.model();
        match read_volume(&l[i]) {
            Some(v) => {
                out.push(v);
                assert(out.model() =~= before.push(v.model()));
            },
            None => {
                proof {
                    lemma_every_none(l@, f, i + 1);
                }
                return None;
            },
        }
        i += 1;
    }
    assert(l@.take(l@.len() as int) =~= l@);
    Some(out)
}

/// Whether every entry of a dictionary is a list of volumes.
pub open spec fn all_volumes(d: Seq<(String, Json)>) -> bool {
    forall|i: int| 0 <= i < d.len() ==> volumes_in((#[trigger] d[i]).1) is Some
}

/// The key that comes first in order of those that spell no number.
pub open spec fn bad_key(d: Seq<(String, Json)>) -> Option<Seq<char>>
    decreases d.len(),
{
    if d.len() == 0 {
        None
    } else {
        let k = d.last().0@;
        match bad_key(d.drop_last()) {
            Some(b) => if text::signed_value(k) is None && text::before(k, b) {
                Some(k)
            } else {
                Some(b)
            },
            None => if text::signed_value(k) is None {
                Some(k)
            } else {
                None
            },
        }
    }
}

/// The volumes by the number of their OSD; of two keys for one number, the later.
pub open spec fn volume_map(d: Seq<(String, Json)>) -> Map<i64, Seq<LvmVolumeModel>>
    decreases d.len(),
{
    if d.len() == 0 {
        Map::empty()
    } else {
        match (text::signed_value(d.last().0@), volumes_in(d.last().1)) {
            (Some(id), Some(v)) => volume_map(d.drop_last()).insert(id as i64, v),
            _ => volume_map(d.drop_last()),
        }
    }
}

/// A map of volumes with its texts as characters.
pub open spec fn map_model(m: Map<i64, Vec<LvmVolume>>) -> Map<i64, Seq<LvmVolumeModel>> {
    m.map_values(|v: Vec<LvmVolume>| v.model())
}

/// The command that lists volumes.
pub open spec fn list_cmd() -> Seq<char> {
    "ceph-volume lvm list --format json"@
}

/// The volumes a listing names by the number of their OSD, or why it names none.
pub open spec fn volumes_result(raw: Seq<char>) -> Result<
    Map<i64, Seq<LvmVolumeModel>>,
    CmdErrorModel,
> {
    let start = text::first_of(raw, '{');
    if start >= raw.len() {
        Err(CmdErrorModel::Parse { cmd: list_cmd(), detail: "no JSON object in output"@ })
    } else {
        match exec::json_result(list_cmd(), raw.subrange(start, raw.len() as int)) {
            Err(e) => Err(e),
            Ok(j) => match json::entries_of(j) {
                Some(d) => if !all_volumes(d) {
                    Err(CmdErrorModel::Parse { cmd: list_cmd(), detail: "not a list of volumes"@ })
                } else {
                    match bad_key(d) {
                        Some(k) => Err(
                            CmdErrorModel::Parse {
                                cmd: list_cmd(),
                                detail: "OSD key "@ + text::quoted(k) + " is not a number"@,
                            },
                        ),
                        None => Ok(volume_map(d)),
                    }
                },
                None => Err(
                    CmdErrorModel::Parse { cmd: list_cmd(), detail: "not a list of volumes"@ },
                ),
            },
        }
    }
}

/// A result of `parse_lvm_list` with its texts as characters.
pub open spec fn volumes_model(r: Result<BTreeMap<i64, Vec<LvmVolume>>, CmdError>) -> Result<
    Map<i64, Seq<LvmVolumeModel>>,
    CmdErrorModel,
> {
    match r {
        Ok(m) => Ok(map_model(m@)),
        Err(e) => Err(e.model()),
    }
}

/// Reads a listing of volumes. Lines before the document are skipped; a listing
/// without a document is an error, never an empty one.
pub fn parse_lvm_list(raw: &str) -> (r: Result<BTreeMap<i64, Vec<LvmVolume>>, CmdError>)
    ensures
        volumes_model(r) == volumes_result(raw@),
{
    let cmd: &str = "ceph-volume lvm list --format json";
    let start: usize = match text::find_char(raw, '{') {
        Some(i) => i,
        None => return Err(CmdError::parse(cmd, "no JSON object in output")),
    };
    let n: usize = raw.unicode_len();
    let j = match exec::parse_json(cmd, raw.substring_char(start, n)) {
        Ok(j) => j,
        Err(e) => return Err(e),
    };
    let d = match &j {
        Json::Dict(d) => d,
        _ => return Err(CmdError::parse(cmd, "not a list of volumes")),
    };
    let mut map: BTreeMap<i64, Vec<LvmVolume>> = BTreeMap::new();
    let mut bad: Option<usize> = None;
    let mut i: usize = 0;
    assert(d@.take(0) =~= seq![]);
    assert(map_model(map@) =~= Map::empty());
    while i < d.len()
        invariant
            i <= d@.len(),
            map_model(map@) == volume_map(d@.take(i as int)),
            match bad {
                Some(b) => b < i && bad_key(d@.take(i as int)) == Some(d@[b as int].0@),
                None => bad_key(d@.take(i as int)) is None,
            },
            forall|k: int| 0 <= k < i ==> volumes_in((#[trigger] d@[k]).1) is Some,
            j == Json::Dict(*d),
            exec::json_result(
                list_cmd(),
                raw@.subrange(text::first_of(raw@, '{'), raw@.len() as int),
            ) == Ok::<Json, CmdErrorModel>(j),
            text::first_of(raw@, '{') < raw@.len(),
            cmd@ == list_cmd(),
        decreases d@.len() - i,
    {
        assert(d@.take(i + 1).drop_last() =~= d@.take(i as int));
        assert(d@.take(i + 1).last() == d@[i as int]);
        let volumes = match read_volumes(&d[i].1) {
            Some(v) => v,
            None => {
                assert(volumes_in(d@[i as int].1) is None);
                return Err(CmdError::parse(cmd, "not a list of volumes"));
            },
        };
        match text::parse_signed(d[i].0.as_str()) {
            Some(id) => {
                let ghost before = map@;
                map.insert(id, volumes);
                assert(map_model(map@) =~= map_model(before).insert(id, volumes.model()));
            },
            None => {
                bad = match bad {
                    Some(b) => if text::less(d[i].0.as_str(), d[b].0.as_str()) {
                        Some(i)
                    } else {
                        Some(b)
                    },
                    None => Some(i),
                };
            },
        }
        i += 1;
    }
    assert(d@.take(d@.len() as int) =~= d@);
    match bad {
        Some(b) => {
            let key = text::quote(d[b].0.as_str());
            let detail = text::cat3("OSD key ", key.as_str(), " is not a number");
            Err(CmdError::parse(cmd, detail.as_str()))
        },
        None => Ok(map),
    }
}

// ── What holds of every loss ─────────────────────────────────────────────────

/// Whether a placement group is listed under a pool.
pub open spec fn listed_under(
    m: Seq<(Seq<char>, Seq<Seq<char>>)>,
    name: Seq<char>,
    pg: Seq<char>,
) -> bool {
    exists|i: int| 0 <= i < m.len() && (#[trigger] m[i]).0 == name && m[i].1.contains(pg)
}

proof fn lemma_with_pg(
    m: Seq<(Seq<char>, Seq<Seq<char>>)>,
    name: Seq<char>,
    pg: Seq<char>,
    x: Seq<char>,
    y: Seq<char>,
)
    ensures
        listed_under(with_pg(m, name, pg), x, y) <==> listed_under(m, x, y) || (x == name && y
            == pg),
{
    lemma_pool_place_holds(m, name);
    let at = pool_place(m, name);
    let r = with_pg(m, name, pg);
    if at < m.len() {
        names::lemma_inserted_holds(m[at].1, pg, y);
        assert(r[at].0 == name);
        if listed_under(m, x, y) {
            let i = choose|i: int| 0 <= i < m.len() && (#[trigger] m[i]).0 == x && m[i].1.contains(y);
            assert(r[i].0 == x && r[i].1.contains(y));
        }
        if listed_under(r, x, y) {
            let i = choose|i: int| 0 <= i < r.len() && (#[trigger] r[i]).0 == x && r[i].1.contains(y);
            assert(m[i].0 == x);
        }
    } else {
        names::lemma_inserted_holds(seq![], pg, y);
        assert(r[m.len() as int].0 == name);
        if listed_under(m, x, y) {
            let i = choose|i: int| 0 <= i < m.len() && (#[trigger] m[i]).0 == x && m[i].1.contains(y);
            assert(r[i] == m[i]);
        }
        if listed_under(r, x, y) {
            let i = choose|i: int| 0 <= i < r.len() && (#[trigger] r[i]).0 == x && r[i].1.contains(y);
            if i < m.len() {
                assert(m[i] == r[i]);
            }
        }
    }
}

/// A placement group is reported lost under a pool exactly when it is of that pool, it has
/// a holder, and every one of its holders is down.
pub proof fn what_has_no_holder_left_is_lost(
    dump: OsdDumpModel,
    pgs: Seq<PgBriefModel>,
    x: Seq<char>,
    y: Seq<char>,
)
    ensures
        listed_under(lost_of(dump, pgs), x, y) <==> exists|i: int|
            0 <= i < pgs.len() && (#[trigger] pgs[i]).pgid == y && pool_name_of(pgs[i], dump)
                == Some(x) && pgs[i].holders().len() > 0 && forall|k: int|
                0 <= k < pgs[i].holders().len() ==> dump.down().contains(
                    #[trigger] pgs[i].holders()[k],
                ),
    decreases pgs.len(),
{
    if pgs.len() > 0 {
        let rest = pgs.drop_last();
        what_has_no_holder_left_is_lost(dump, rest, x, y);
        assert forall|i: int| 0 <= i < rest.len() implies #[trigger] rest[i] == pgs[i] by {}
        let n = pgs.len() - 1;
        assert(pgs[n] == pgs.last());
        if is_lost(pgs.last(), dump) {
            lemma_with_pg(
                lost_of(dump, rest),
                pool_name_of(pgs.last(), dump)->0,
                pgs.last().pgid,
                x,
                y,
            );
        }
        if exists|i: int|
            0 <= i < rest.len() && (#[trigger] rest[i]).pgid == y && pool_name_of(rest[i], dump)
                == Some(x) && rest[i].holders().len() > 0 && forall|k: int|
                0 <= k < rest[i].holders().len() ==> dump.down().contains(
                    #[trigger] rest[i].holders()[k],
                ) {
            let i = choose|i: int|
                0 <= i < rest.len() && (#[trigger] rest[i]).pgid == y && pool_name_of(rest[i], dump)
                    == Some(x) && rest[i].holders().len() > 0 && forall|k: int|
                    0 <= k < rest[i].holders().len() ==> dump.down().contains(
                        #[trigger] rest[i].holders()[k],
                    );
            assert(pgs[i].pgid == y);
        }
        if exists|i: int|
            0 <= i < pgs.len() && (#[trigger] pgs[i]).pgid == y && pool_name_of(pgs[i], dump)
                == Some(x) && pgs[i].holders().len() > 0 && forall|k: int|
                0 <= k < pgs[i].holders().len() ==> dump.down().contains(
                    #[trigger] pgs[i].holders()[k],
                ) {
            let i = choose|i: int|
                0 <= i < pgs.len() && (#[trigger] pgs[i]).pgid == y && pool_name_of(pgs[i], dump)
                    == Some(x) && pgs[i].holders().len() > 0 && forall|k: int|
                    0 <= k < pgs[i].holders().len() ==> dump.down().contains(
                        #[trigger] pgs[i].holders()[k],
                    );
            if i < n {
                assert(rest[i] == pgs[i]);
            }
        }
    }
}

/// Those who hold a placement group are the ones acting for it, and the ones that should
/// hold it only where none acts.
pub proof fn who_acts_holds(pg: PgBriefModel)
    ensures
        pg.acting.len() > 0 ==> pg.holders() == pg.acting,
        pg.acting.len() == 0 ==> pg.holders() == pg.up,
{
}

} // verus!
