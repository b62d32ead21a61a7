//! Devices: which of them are a user's disks, what they are called, and the label
//! that a storage daemon left on them.
use vstd::prelude::*;

use crate::double;
use crate::json;
use crate::json::Json;
use crate::model::Model;
use crate::table;
use crate::text;

verus! {

// ── What a device is called ──────────────────────────────────────────────────

/// Whether a character is a letter or a digit of ASCII.
pub open spec fn alnum(c: char) -> bool {
    ('0' <= c && c <= '9') || ('a' <= c && c <= 'z') || ('A' <= c && c <= 'Z')
}

/// A character as a key may hold it.
pub open spec fn safe_char(c: char) -> char {
    if alnum(c) {
        text::lower(c)
    } else {
        '-'
    }
}

/// A text as a key may hold it.
pub open spec fn safe(s: Seq<char>) -> Seq<char> {
    Seq::new(s.len(), |i: int| safe_char(s[i]))
}

/// The name of a disk: after its hardware id when it has one, after the place
/// the kernel gave it otherwise.
pub open spec fn id_of(device: Seq<char>, stable: Option<Seq<char>>) -> Seq<char> {
    match stable {
        Some(serial) => {
            let s = text::trimmed(serial);
            if s.len() > 0 {
                "serial-"@ + text::shed_back(text::shed_front(safe(s), '-'), '-')
            } else {
                "dev-"@ + device
            }
        },
        None => "dev-"@ + device,
    }
}

fn safe_text(s: &str) -> (r: String)
    ensures
        r@ == safe(s@),
{
    let mut out = String::from_str("");
    let n: usize = s.unicode_len();
    let mut i: usize = 0;
    proof {
        reveal_strlit("");
    }
    assert(out@ =~= safe(s@.take(0)));
    while i < n
        invariant
            i <= n,
            n == s@.len(),
            out@ == safe(s@.take(i as int)),
        decreases n - i,
    {
        let c = s.get_char(i);
        let ok = (c >= '0' && c <= '9') || (c >= 'a' && c <= 'z') || (c >= 'A' && c <= 'Z');
        out.push(if ok { text::lower_char(c) } else { '-' });
        assert(out@ =~= safe(s@.take(i + 1)));
        i += 1;
    }
    assert(s@.take(n as int) =~= s@);
    out
}

/// The name of a disk.
pub fn disk_id_from(device: &str, stable: Option<&str>) -> (r: String)
    ensures
        r@ == id_of(device@, stable.model()),
{
    if let Some(serial) = stable {
        let s = text::trim(serial);
        if s.unicode_len() > 0 {
            let safe = safe_text(s);
            let front = text::trim_start_matches(safe.as_str(), '-');
            return text::cat("serial-", text::trim_end_matches(front, '-'));
        }
    }
    text::cat("dev-", device)
}

/// How good a link names a disk, the best first; other links name none.
pub open spec fn rank_of(name: Seq<char>) -> Option<int> {
    if text::begins(name, "wwn-"@) {
        Some(0)
    } else if text::begins(name, "nvme-eui."@) {
        Some(1)
    } else if text::begins(name, "nvme-"@) {
        Some(2)
    } else if text::begins(name, "ata-"@) {
        Some(3)
    } else if text::begins(name, "scsi-"@) {
        Some(4)
    } else if text::begins(name, "usb-"@) {
        Some(5)
    } else {
        None
    }
}

/// How good a link names a disk.
pub fn id_rank(name: &str) -> (r: Option<u8>)
    ensures
        match r {
            Some(n) => rank_of(name@) == Some(n as int),
            None => rank_of(name@) is None,
        },
{
    if text::starts_with(name, "wwn-") {
        Some(0)
    } else if text::starts_with(name, "nvme-eui.") {
        Some(1)
    } else if text::starts_with(name, "nvme-") {
        Some(2)
    } else if text::starts_with(name, "ata-") {
        Some(3)
    } else if text::starts_with(name, "scsi-") {
        Some(4)
    } else if text::starts_with(name, "usb-") {
        Some(5)
    } else {
        None
    }
}

// ── The label of a storage daemon ────────────────────────────────────────────

/// Whether a text is a UUID: five groups of 8, 4, 4, 4 and 12 hex digits.
pub open spec fn uuid(s: Seq<char>) -> bool {
    let p = text::pieces(s, '-');
    p.len() == 5 && group(p[0], 8) && group(p[1], 4) && group(p[2], 4) && group(p[3], 4) && group(
        p[4],
        12,
    )
}

/// Whether a text is `n` hex digits.
pub open spec fn group(s: Seq<char>, n: int) -> bool {
    s.len() == n && text::all_hex(s)
}

fn is_group(s: &str, n: usize) -> (r: bool)
    ensures
        r == group(s@, n as int),
{
    s.unicode_len() == n && text::is_all_hex(s)
}

/// Whether a text is a UUID.
pub fn is_uuid(s: &str) -> (r: bool)
    ensures
        r == uuid(s@),
{
    let p = text::split(s, '-');
    p.len() == 5 && is_group(p[0], 8) && is_group(p[1], 4) && is_group(p[2], 4) && is_group(p[3], 4)
        && is_group(p[4], 12)
}

/// Whether the bytes from `i` on spell a text of ASCII.
pub open spec fn spells(b: Seq<u8>, i: int, s: Seq<char>) -> bool {
    0 <= i && i + s.len() <= b.len() && forall|k: int|
        0 <= k < s.len() ==> #[trigger] s[k] as int == b[i + k] as int
}

/// The first place from `i` on where the bytes spell a text, if there is one.
pub open spec fn spelled_at(b: Seq<u8>, i: int, s: Seq<char>) -> Option<int>
    decreases b.len() - i,
{
    if i < 0 || i + s.len() > b.len() {
        None
    } else if spells(b, i, s) {
        Some(i)
    } else {
        spelled_at(b, i + 1, s)
    }
}

/// How a label of a storage daemon begins.
pub open spec fn magic() -> Seq<char> {
    "bluestore block device\n"@
}

/// The field of the label that names the cluster.
pub open spec fn fsid_field() -> Seq<char> {
    "\u{9}\u{0}\u{0}\u{0}ceph_fsid"@
}

/// A number in four bytes, the least significant first.
pub open spec fn le32(b: Seq<u8>, i: int) -> int {
    b[i] + 0x100 * b[i + 1] + 0x10000 * b[i + 2] + 0x1000000 * b[i + 3]
}

/// Bytes as characters, one for one.
pub open spec fn ascii(b: Seq<u8>) -> Seq<char> {
    Seq::new(b.len(), |i: int| b[i] as char)
}

/// The cluster that a device's first bytes name: behind the name of the field
/// come the length of a UUID and the UUID.
pub open spec fn label_in(b: Seq<u8>) -> Option<Seq<char>> {
    if !spells(b, 0, magic()) {
        None
    } else {
        match spelled_at(b, 0, fsid_field()) {
            None => None,
            Some(pos) => {
                let vs = pos + fsid_field().len();
                if vs + 40 > b.len() || le32(b, vs) != 36 {
                    None
                } else {
                    let fsid = ascii(b.subrange(vs + 4, vs + 40));
                    if uuid(fsid) {
                        Some(fsid)
                    } else {
                        None
                    }
                }
            },
        }
    }
}

fn does_spell(b: &Vec<u8>, i: usize, s: &str) -> (r: bool)
    ensures
        r == spells(b@, i as int, s@),
{
    let n: usize = s.unicode_len();
    if b.len() < n || i > b.len() - n {
        return false;
    }
    let mut k: usize = 0;
    while k < n
        invariant
            k <= n,
            n == s@.len(),
            i + n <= b.len(),
            forall|j: int| 0 <= j < k ==> #[trigger] s@[j] as int == b@[i + j] as int,
        decreases n - k,
    {
        if s.get_char(k) as u32 != b[i + k] as u32 {
            assert(s@[k as int] as int != b@[i + k] as int);
            return false;
        }
        k += 1;
    }
    true
}

fn find_spelled(b: &Vec<u8>, s: &str) -> (r: Option<usize>)
    ensures
        match r {
            Some(i) => spelled_at(b@, 0, s@) == Some(i as int),
            None => spelled_at(b@, 0, s@) is None,
        },
{
    let n: usize = s.unicode_len();
    if b.len() < n {
        return None;
    }
    let last: usize = b.len() - n;
    let mut i: usize = 0;
    while i <= last
        invariant
            n == s@.len(),
            last == b@.len() - n,
            i <= last + 1,
            spelled_at(b@, 0, s@) == spelled_at(b@, i as int, s@),
        decreases last + 1 - i,
    {
        if does_spell(b, i, s) {
            return Some(i);
        }
        if i == last {
            assert(spelled_at(b@, i + 1, s@) is None);
            return None;
        }
        i += 1;
    }
    None
}

/// The cluster that a device's first bytes name.
pub fn bluestore_fsid(header: &Vec<u8>) -> (r: Option<String>)
    ensures
        r.model() == label_in(header@),
{
    if !does_spell(header, 0, "bluestore block device\n") {
        return None;
    }
    let key = "\u{9}\u{0}\u{0}\u{0}ceph_fsid";
    let pos = match find_spelled(header, key) {
        Some(p) => p,
        None => return None,
    };
    proof {
        lemma_spelled(header@, 0, fsid_field());
    }
    assert(pos + key@.len() <= header.len());
    let vs: usize = pos + key.unicode_len();
    if header.len() < 40 || vs > header.len() - 40 {
        return None;
    }
    let len: u64 = header[vs] as u64 + 0x100 * header[vs + 1] as u64 + 0x10000 * header[vs + 2] as u64
        + 0x1000000 * header[vs + 3] as u64;
    if len != 36 {
        return None;
    }
    let mut out = String::from_str("");
    let mut k: usize = 0;
    let ghost field = header@.subrange(vs + 4, vs + 40);
    proof {
        reveal_strlit("");
    }
    assert(out@ =~= ascii(field.take(0)));
    while k < 36
        invariant
            k <= 36,
            vs + 40 <= header.len(),
            field == header@.subrange(vs + 4, vs + 40),
            out@ == ascii(field.take(k as int)),
        decreases 36 - k,
    {
        out.push(header[vs + 4 + k] as char);
        assert(out@ =~= ascii(field.take(k + 1)));
        k += 1;
    }
    assert(field.take(36) =~= field);
    if is_uuid(out.as_str()) {
        Some(out)
    } else {
        None
    }
}

proof fn lemma_spelled(b: Seq<u8>, i: int, s: Seq<char>)
    ensures
        match spelled_at(b, i, s) {
            Some(p) => i <= p && p + s.len() <= b.len(),
            None => true,
        },
    decreases b.len() - i,
{
    if i < 0 || i + s.len() > b.len() || spells(b, i, s) {
    } else {
        lemma_spelled(b, i + 1, s);
    }
}

/// A label names its cluster by a UUID or not at all.
pub proof fn a_label_names_a_uuid(b: Seq<u8>)
    ensures
        match label_in(b) {
            Some(fsid) => uuid(fsid),
            None => true,
        },
{
}

// ── Which devices are disks ──────────────────────────────────────────────────

/// Whether a device of this name is a user's disk, not one the system makes up.
pub open spec fn users(name: Seq<char>) -> bool {
    !text::begins(name, "rbd"@) && !text::begins(name, "loop"@) && !text::begins(name, "zram"@)
        && !text::begins(name, "zd"@) && !text::begins(name, "md"@) && !text::begins(name, "dm-"@)
}

/// Whether a device of this name is a user's disk.
pub fn is_user_disk(name: &str) -> (r: bool)
    ensures
        r == users(name@),
{
    !text::starts_with(name, "rbd") && !text::starts_with(name, "loop") && !text::starts_with(
        name,
        "zram",
    ) && !text::starts_with(name, "zd") && !text::starts_with(name, "md") && !text::starts_with(
        name,
        "dm-",
    )
}

/// What a listing says of how a device is used.
#[derive(Clone, Copy, Debug, PartialEq, Eq, Structural)]
pub struct DiskFlags {
    pub has_partitions: bool,
    pub mounted: bool,
}

impl Default for DiskFlags {
    fn default() -> (r: DiskFlags)
        ensures
            !r.has_partitions && !r.mounted,
    {
        DiskFlags { has_partitions: false, mounted: false }
    }
}

impl Model for DiskFlags {
    type M = DiskFlags;

    open spec fn model(&self) -> DiskFlags {
        *self
    }
}

/// Whether a document is a text with something in it.
pub open spec fn some_text(j: Json) -> bool {
    match json::text_of(j) {
        Some(s) => s.len() > 0,
        None => false,
    }
}

/// Whether a field is a text with something in it.
pub open spec fn some_text_at(j: Json, key: Seq<char>) -> bool {
    match json::field(j, key) {
        Some(f) => some_text(f),
        None => false,
    }
}

/// Whether one of the documents is a text with something in it.
pub open spec fn any_text(l: Seq<Json>) -> bool {
    exists|i: int| 0 <= i < l.len() && some_text(#[trigger] l[i])
}

/// Whether a listed device itself is mounted.
pub open spec fn mounted_itself(j: Json) -> bool {
    some_text_at(j, "mountpoint"@) || match json::field(j, "mountpoints"@) {
        Some(Json::List(l)) => any_text(l@),
        Some(f) => some_text(f),
        None => false,
    }
}

/// Whether a listed device, or anything below it, is mounted.
pub open spec fn mounted(j: Json) -> bool
    decreases j,
{
    mounted_itself(j) || match j {
        Json::Dict(d) => {
            let k = json::entry_of(d@, "children"@);
            if 0 <= k < d@.len() {
                match d@[k].1 {
                    Json::List(l) => exists|i: int| 0 <= i < l@.len() && mounted(#[trigger] l@[i]),
                    _ => false,
                }
            } else {
                false
            }
        },
        _ => false,
    }
}

/// Whether a listed device has a partition.
pub open spec fn partitioned(j: Json) -> bool {
    match json::items_at(j, "children"@) {
        Some(l) => exists|i: int|
            0 <= i < l.len() && json::text_at(#[trigger] l[i], "type"@) == Some("part"@),
        None => false,
    }
}

/// What a listing says of a device.
pub open spec fn flags_of(j: Json) -> DiskFlags {
    DiskFlags { has_partitions: partitioned(j), mounted: mounted(j) }
}

fn is_some_text(j: &Json) -> (r: bool)
    ensures
        r == some_text(*j),
{
    match j.as_str() {
        Some(s) => s.unicode_len() > 0,
        None => false,
    }
}

fn is_mounted_itself(j: &Json) -> (r: bool)
    ensures
        r == mounted_itself(*j),
{
    let legacy = match j.get("mountpoint") {
        Some(f) => is_some_text(f),
        None => false,
    };
    if legacy {
        return true;
    }
    match j.get("mountpoints") {
        Some(f) => match f {
            Json::List(l) => {
                let mut i: usize = 0;
                while i < l.len()
                    invariant
                        i <= l@.len(),
                        json::field(*j, "mountpoints"@) == Some(Json::List(*l)),
                        forall|k: int| 0 <= k < i ==> !some_text(#[trigger] l@[k]),
                    decreases l@.len() - i,
                {
                    if is_some_text(&l[i]) {
                        assert(some_text(l@[i as int]));
                        return true;
                    }
                    i += 1;
                }
                false
            },
            _ => is_some_text(f),
        },
        None => false,
    }
}

fn is_mounted(j: &Json) -> (r: bool)
    ensures
        r == mounted(*j),
    decreases *j,
{
    if is_mounted_itself(j) {
        return true;
    }
    match j {
        Json::Dict(d) => match j.place("children") {
            Some(k) => match &d[k].1 {
                Json::List(l) => {
                    let mut i: usize = 0;
                    while i < l.len()
                        invariant
                            i <= l@.len(),
                            *j == Json::Dict(*d),
                            k < d@.len(),
                            k == json::entry_of(d@, "children"@),
                            d@[k as int].1 == Json::List(*l),
                            forall|n: int| 0 <= n < i ==> !mounted(#[trigger] l@[n]),
                        decreases l@.len() - i,
                    {
                        assert(decreases_to!(*j => j->Dict_0));
                        assert(decreases_to!(*d => d@));
                        assert(decreases_to!(d@ => d@[k as int]));
                        assert(decreases_to!(d@[k as int] => d@[k as int].1));
                        assert(decreases_to!(d@[k as int].1 => d@[k as int].1->List_0));
                        assert(decreases_to!(*l => l@));
                        assert(decreases_to!(l@ => l@[i as int]));
                        if is_mounted(&l[i]) {
                            assert(mounted(l@[i as int]));
                            return true;
                        }
                        i += 1;
                    }
                    false
                },
                _ => false,
            },
            None => false,
        },
        _ => false,
    }
}

/// What a listing says of a device: whether it has partitions, and whether it or
/// anything below it is mounted.
pub fn parse_disk_flags(dev: &Json) -> (r: DiskFlags)
    ensures
        r == flags_of(*dev),
{
    let mounted = is_mounted(dev);
    let has_partitions = match dev.list_at("children") {
        Some(l) => {
            let mut found = false;
            let mut i: usize = 0;
            while i < l.len()
                invariant
                    i <= l@.len(),
                    found == exists|k: int|
                        0 <= k < i && json::text_at(#[trigger] l@[k], "type"@) == Some("part"@),
                decreases l@.len() - i,
            {
                let is_part = l[i].says("type", "part");
                assert(is_part == (json::text_at(l@[i as int], "type"@) == Some("part"@)));
                found = found || is_part;
                i += 1;
            }
            found
        },
        None => false,
    };
    DiskFlags { has_partitions, mounted }
}

/// A listed device that can become storage: a user's disk that is not in use.
pub open spec fn usable(j: Json) -> Option<(Seq<char>, DiskFlags)> {
    match json::text_at(j, "name"@) {
        Some(name) => if json::text_at(j, "type"@) == Some("disk"@) && name.len() > 0 && users(name)
            && !flags_of(j).mounted {
            Some((name, flags_of(j)))
        } else {
            None
        },
        None => None,
    }
}

/// The usable devices among the first `n` of a listing.
pub open spec fn usable_in(l: Seq<Json>, n: int) -> Seq<(Seq<char>, DiskFlags)>
    decreases n,
{
    if n <= 0 {
        seq![]
    } else {
        match usable(l[n - 1]) {
            Some(d) => usable_in(l, n - 1).push(d),
            None => usable_in(l, n - 1),
        }
    }
}

/// The usable devices of a listing, in the order of their names.
pub open spec fn devices_in(j: Json) -> Seq<(Seq<char>, DiskFlags)> {
    match json::items_at(j, "blockdevices"@) {
        Some(l) => table::by_name(usable_in(l, l.len() as int)),
        None => seq![],
    }
}

fn usable_device(dev: &Json) -> (r: Option<(String, DiskFlags)>)
    ensures
        r.model() == usable(*dev),
{
    if !dev.says("type", "disk") {
        return None;
    }
    let name = match dev.str_at("name") {
        Some(n) => n,
        None => return None,
    };
    if name.unicode_len() == 0 || !is_user_disk(name) {
        return None;
    }
    let flags = parse_disk_flags(dev);
    if flags.mounted {
        return None;
    }
    Some((name.to_owned(), flags))
}

/// The usable devices of a listing, in the order of their names.
pub fn listed_devices(j: &Json) -> (r: Vec<(String, DiskFlags)>)
    ensures
        r.model() == devices_in(*j),
{
    let mut out: Vec<(String, DiskFlags)> = Vec::new();
    assert(out.model() =~= seq![]);
    match j.list_at("blockdevices") {
        Some(l) => {
            let mut i: usize = 0;
            while i < l.len()
                invariant
                    i <= l@.len(),
                    out.model() == usable_in(l@, i as int),
                decreases l@.len() - i,
            {
                let ghost before = out.model();
                if let Some(d) = usable_device(&l[i]) {
                    out.push(d);
                    assert(out.model() =~= before.push(d.model()));
                }
                i += 1;
            }
            table::sort(out)
        },
        None => out,
    }
}

/// A disk in use is never taken for storage.
pub proof fn a_mounted_disk_is_never_listed(l: Seq<Json>, n: int, i: int)
    requires
        0 <= n <= l.len(),
        0 <= i < usable_in(l, n).len(),
    ensures
        !usable_in(l, n)[i].1.mounted,
        users(usable_in(l, n)[i].0),
    decreases n,
{
    if n > 0 {
        if i < usable_in(l, n - 1).len() {
            a_mounted_disk_is_never_listed(l, n - 1, i);
        }
    }
}

// ── The weight of a disk ─────────────────────────────────────────────────────

/// The weight of a disk in tebibytes, as a fraction.
#[derive(Clone, Copy, Debug, PartialEq, Eq, Structural)]
pub struct Weight {
    pub amount: u64,
    pub per_tib: u64,
}

/// The weight of a disk: from the kibibytes the cluster counts, else from its
/// size in bytes.
pub open spec fn weight_of(kb: u64, size_bytes: u64) -> Weight {
    if kb > 0 {
        Weight { amount: kb, per_tib: 0x40000000 }
    } else {
        Weight { amount: size_bytes, per_tib: 0x10000000000 }
    }
}

/// The weight of a disk.
pub fn weight_tib_from(kb: u64, size_bytes: u64) -> (r: Weight)
    ensures
        r == weight_of(kb, size_bytes),
{
    if kb > 0 {
        Weight { amount: kb, per_tib: 0x40000000 }
    } else {
        Weight { amount: size_bytes, per_tib: 0x10000000000 }
    }
}

/// A weight in hundred-thousandths: of the double nearest to its amount.
pub open spec fn hundred_thousandths(w: Weight) -> nat {
    double::nearest(double::as_double(w.amount as nat) * 100000, w.per_tib as nat)
}

/// A weight with five decimals.
pub open spec fn weight_text(w: Weight) -> Seq<char> {
    let h = hundred_thousandths(w);
    text::decimal(h / 100000) + "."@ + text::decimal(100000 + h % 100000).skip(1)
}

/// A weight with five decimals.
pub fn written_weight(w: Weight) -> (r: String)
    requires
        w.per_tib >= 0x40000000,
    ensures
        r@ == weight_text(w),
{
    let d: u128 = double::to_double(w.amount);
    let h: u128 = double::rounded(d * 100000, w.per_tib);
    proof {
        assert(h <= 0x10000000000000000) by (nonlinear_arith)
            requires
                d <= 0x10000000000000000 + 4096,
                w.per_tib >= 0x40000000,
                h <= (d * 100000) / (w.per_tib as int) + 1,
        ;
    }
    let whole = text::decimal_of((h / 100000) as u64);
    let part = text::decimal_of((100000 + h % 100000) as u64);
    let digits = part.as_str();
    proof {
        lemma_six_digits(100000 + (h % 100000) as nat);
    }
    let tail = digits.substring_char(1, digits.unicode_len());
    assert(tail@ =~= part@.skip(1));
    text::cat3(whole.as_str(), ".", tail)
}

proof fn lemma_six_digits(n: nat)
    requires
        100000 <= n < 1000000,
    ensures
        text::decimal(n).len() == 6,
{
    reveal_with_fuel(text::decimal, 6);
}

/// A weight is written with exactly five decimals.
pub proof fn a_weight_has_five_decimals(w: Weight)
    ensures
        exists|whole: Seq<char>, part: Seq<char>|
            weight_text(w) == #[trigger] (whole + "."@ + part) && text::all_digits(whole)
                && text::all_digits(part) && part.len() == 5,
{
    let h = hundred_thousandths(w);
    let n = 100000 + h % 100000;
    lemma_six_digits(n);
    text::lemma_decimal(h / 100000);
    text::lemma_decimal(n);
    let part = text::decimal(n).skip(1);
    assert(text::all_digits(part)) by {
        assert forall|i: int| 0 <= i < part.len() implies text::is_digit(#[trigger] part[i]) by {
            assert(part[i] == text::decimal(n)[i + 1]);
        }
    }
    assert(weight_text(w) == text::decimal(h / 100000) + "."@ + part);
}

// ── What holds of every device ───────────────────────────────────────────────

/// The devices listed are exactly the disks with a name of their own that are not mounted
/// and that a user may have put in.
pub proof fn every_usable_disk_is_listed(l: Seq<Json>, n: int, e: (Seq<char>, DiskFlags))
    requires
        0 <= n <= l.len(),
    ensures
        usable_in(l, n).contains(e) <==> exists|i: int|
            0 <= i < n && json::text_at(#[trigger] l[i], "name"@) == Some(e.0) && json::text_at(
                l[i],
                "type"@,
            ) == Some("disk"@) && e.0.len() > 0 && users(e.0) && !mounted(l[i]) && !e.1.mounted
                && e.1.has_partitions == partitioned(l[i]),
    decreases n,
{
    if n > 0 {
        every_usable_disk_is_listed(l, n - 1, e);
        let rest = usable_in(l, n - 1);
        if let Some(d) = usable(l[n - 1]) {
            let all = rest.push(d);
            assert(all[rest.len() as int] == d);
            if rest.contains(e) {
                let x = choose|x: int| 0 <= x < rest.len() && rest[x] == e;
                assert(all[x] == e);
            }
            if all.contains(e) && e != d {
                let x = choose|x: int| 0 <= x < all.len() && all[x] == e;
                assert(rest[x] == e);
            }
        }
    }
}

/// A device counts as mounted exactly when it or anything on it is.
pub proof fn what_stands_on_a_mount_is_mounted(j: Json, l: Seq<Json>)
    requires
        json::items_at(j, "children"@) == Some(l),
    ensures
        mounted(j) <==> mounted_itself(j) || exists|i: int| 0 <= i < l.len() && mounted(#[trigger] l[i]),
{
}

/// A disk without a serial number is called by its device.
pub proof fn a_disk_without_a_serial_goes_by_its_device(device: Seq<char>, serial: Seq<char>)
    ensures
        id_of(device, None) == "dev-"@ + device,
        text::trimmed(serial).len() == 0 ==> id_of(device, Some(serial)) == "dev-"@ + device,
        text::trimmed(serial).len() > 0 ==> text::begins(id_of(device, Some(serial)), "serial-"@),
{
    if text::trimmed(serial).len() > 0 {
        let rest = text::shed_back(
            text::shed_front(safe(text::trimmed(serial)), '-'),
            '-',
        );
        assert(("serial-"@ + rest).subrange(0, "serial-"@.len() as int) =~= "serial-"@);
    }
}

/// A weight goes by what the cluster counted, and by the size of the disk only where the
/// cluster counted nothing.
pub proof fn a_weight_goes_by_what_is_counted(kb: u64, size_bytes: u64)
    ensures
        kb > 0 ==> weight_of(kb, size_bytes).amount == kb && weight_of(kb, size_bytes).per_tib
            == 1024 * 1024 * 1024,
        kb == 0 ==> weight_of(kb, size_bytes).amount == size_bytes && weight_of(
            kb,
            size_bytes,
        ).per_tib == 1024 * 1024 * 1024 * 1024,
{
}

} // verus!
