//! Per-process data: niceness, containerization, the fields of
//! `/proc/<pid>/stat`, the environment, and the GPU/NPU usage accumulated over
//! a process's fdinfos.

use vstd::prelude::*;
use std::collections::HashMap;
use vstd::string::StrSliceExecFns;

use crate::assoc::{
    distinct_keys, lemma_pairs_map_at, lemma_pairs_map_dom, lemma_pairs_map_update,
    lemma_push_new_key, pairs_map,
};
use crate::fdinfo::{
    extract_gpu_usage, extract_npu_usage, field_views, gpu_entry, npu_entry, Fdinfo,
};
use crate::gpu_usage::{spec_greater, GpuIdentifier, GpuUsageStats};
use crate::npu_usage::{spec_npu_greater, NpuUsageStats};
use crate::pci_slot::PciSlot;
use crate::procfs::{
    affinity_of, captured_kb_as_bytes, captured_u64, cgroup_part, parse_affinity,
    parse_memory_usage, parse_read_bytes, parse_stat, parse_swap_usage, parse_uid,
    parse_write_bytes, sanitize, stat_fields, ProcfsError, AFFINITY_PATTERN, MEMORY_PATTERN,
    READ_PATTERN, SWAP_PATTERN, UID_PATTERN, WRITE_PATTERN,
};
use crate::pattern::regex_group;
use crate::text::{
    chars_of, find_char, lemma_split_once_at, parse_signed_in, parse_signed_range,
    parse_unsigned_in, parse_unsigned_max, same_text, split_chars, split_once, split_ranges, trim,
    trim_range,
};

verus! {

/// Why a value is not a valid [`Niceness`].
#[derive(Debug, Clone, Copy, PartialEq, Eq, Structural)]
pub enum NicenessError {
    /// The value was above 19.
    LessOrEqualViolated,
    /// The value was below -20.
    GreaterOrEqualViolated,
}

/// A process niceness in `-20..=19`.
#[derive(Debug, Clone, Copy, Hash, PartialEq, Eq, PartialOrd, Ord, Structural)]
pub struct Niceness {
    value: i8,
}

impl Niceness {
    #[verifier::type_invariant]
    spec fn valid(self) -> bool {
        -20 <= self.value <= 19
    }

    /// The niceness value.
    pub closed spec fn spec_value(self) -> i8 {
        self.value
    }

    /// Accepts `value` when it lies in `-20..=19`.
    pub fn try_new(value: i8) -> (r: Result<Self, NicenessError>)
        ensures
            -20 <= value <= 19 ==> (r matches Ok(n) && n.spec_value() == value),
            value > 19 ==> r == Err::<Self, NicenessError>(NicenessError::LessOrEqualViolated),
            value < -20 ==> r == Err::<Self, NicenessError>(NicenessError::GreaterOrEqualViolated),
    {
        if value > 19 {
            Err(NicenessError::LessOrEqualViolated)
        } else if value < -20 {
            Err(NicenessError::GreaterOrEqualViolated)
        } else {
            Ok(Niceness { value })
        }
    }

    /// The niceness as a plain integer.
    pub fn into_inner(self) -> (r: i8)
        ensures
            r == self.spec_value(),
            -20 <= r <= 19,
    {
        proof {
            use_type_invariant(self);
        }
        self.value
    }

    /// Reads a niceness the way `str::parse` does: a decimal `i8` in `-20..=19`.
    pub fn parse_str(s: &str) -> (r: Option<Self>)
        ensures
            r is Some <==> parse_signed_range(s@, -20, 19) is Some,
            r matches Some(n) ==> parse_signed_range(s@, -20, 19) == Some(n.spec_value() as int),
    {
        let cs = chars_of(s);
        assert(cs@.subrange(0, cs@.len() as int) =~= s@);
        match parse_signed_in(&cs, 0, cs.len(), -20, 19) {
            Some(v) => Some(Niceness { value: v as i8 }),
            None => None,
        }
    }
}

impl Default for Niceness {
    fn default() -> (r: Self)
        ensures
            r.spec_value() == 0,
    {
        Niceness { value: 0 }
    }
}

/// How a process is packaged.
#[derive(Debug, Clone, Copy, Hash, PartialEq, Eq, PartialOrd, Ord, Structural)]
pub enum Containerization {
    /// Not packaged in a container (`None` in the serialized form).
    NoContainer,
    Flatpak,
    Portable,
    Snap,
    AppImage,
}

impl Default for Containerization {
    fn default() -> (r: Self)
        ensures
            r == Containerization::NoContainer,
    {
        Containerization::NoContainer
    }
}

/// `s` starts with `p`.
pub open spec fn starts_with(s: Seq<char>, p: Seq<char>) -> bool {
    p.len() <= s.len() && s.take(p.len() as int) == p
}

/// Whether `s` starts with `p`.
pub fn has_prefix(s: &str, p: &str) -> (r: bool)
    ensures
        r == starts_with(s@, p@),
{
    let x = chars_of(s);
    let y = chars_of(p);
    if y.len() > x.len() {
        return false;
    }
    let mut i: usize = 0;
    while i < y.len()
        invariant
            i <= y@.len() <= x@.len(),
            x@ == s@,
            y@ == p@,
            forall|j: int| 0 <= j < i ==> x@[j] == y@[j],
        decreases y.len() - i,
    {
        if x[i] != y[i] {
            return false;
        }
        i = i + 1;
    }
    assert(x@.take(y@.len() as int) =~= y@);
    true
}

/// The packaging that the command line, the launcher and the markers show.
pub open spec fn containerization_of(
    commandline: Seq<char>,
    launcher: Option<Seq<char>>,
    has_appimage: bool,
    portable_marker: bool,
    flatpak_info: bool,
) -> Containerization {
    if starts_with(commandline, "/snap/"@) {
        Containerization::Snap
    } else if portable_marker || launcher == Some("portable"@) {
        Containerization::Portable
    } else if flatpak_info || launcher == Some("flatpak"@) {
        Containerization::Flatpak
    } else if has_appimage {
        Containerization::AppImage
    } else {
        Containerization::NoContainer
    }
}

fn launcher_is(launcher: Option<&str>, name: &str) -> (r: bool)
    ensures
        r == (launcher matches Some(l) && l@ == name@),
{
    match launcher {
        Some(l) => same_text(l, name),
        None => false,
    }
}

/// Decides how a process is packaged. `portable_marker` and `flatpak_info`
/// tell whether the process's root holds `top.kimiblock.portable` and
/// `.flatpak-info`.
pub fn detect_containerization(
    commandline: &str,
    launcher: Option<&str>,
    has_appimage: bool,
    portable_marker: bool,
    flatpak_info: bool,
) -> (r: Containerization)
    ensures
        r == containerization_of(
            commandline@,
            match launcher {
                Some(l) => Some(l@),
                None => None,
            },
            has_appimage,
            portable_marker,
            flatpak_info,
        ),
{
    if has_prefix(commandline, "/snap/") {
        Containerization::Snap
    } else if portable_marker || launcher_is(launcher, "portable") {
        Containerization::Portable
    } else if flatpak_info || launcher_is(launcher, "flatpak") {
        Containerization::Flatpak
    } else if has_appimage {
        Containerization::AppImage
    } else {
        Containerization::NoContainer
    }
}

/// The value of the last variable `key` in an environment text whose entries
/// are separated by NUL characters; entries without `=` are skipped.
pub open spec fn env_lookup(entries: Seq<Seq<char>>, key: Seq<char>) -> Option<Seq<char>>
    decreases entries.len(),
{
    if entries.len() == 0 {
        None
    } else {
        match split_once(entries.last(), '=') {
            Some((k, v)) => if k == key {
                Some(v)
            } else {
                env_lookup(entries.drop_last(), key)
            },
            None => env_lookup(entries.drop_last(), key),
        }
    }
}

/// The variable `key` of the content of `/proc/<pid>/environ`.
pub open spec fn environ_var(environ: Seq<char>, key: Seq<char>) -> Option<Seq<char>> {
    env_lookup(split_chars(environ, seq!['\0']), key)
}

/// The value of the entry `environ[a..b]` when it is `key=value`.
fn entry_value(environ: &str, cs: &Vec<char>, a: usize, b: usize, key: &str) -> (r: Option<String>)
    requires
        a <= b <= cs@.len(),
        cs@ == environ@,
    ensures
        ({
            let entry = cs@.subrange(a as int, b as int);
            match split_once(entry, '=') {
                Some((k, v)) => if k == key@ {
                    r matches Some(t) && t@ == v
                } else {
                    r is None
                },
                None => r is None,
            }
        }),
{
    let ghost entry = cs@.subrange(a as int, b as int);
    match find_char(cs, a, b, '=') {
        Some(c) => {
            proof {
                lemma_split_once_at(entry, '=', c - a);
                assert(entry.take(c - a) =~= cs@.subrange(a as int, c as int));
                assert(entry.skip(c - a + 1) =~= cs@.subrange(c + 1, b as int));
            }
            let k = environ.substring_char(a, c);
            if same_text(k, key) {
                Some(environ.substring_char(c + 1, b).to_owned())
            } else {
                None
            }
        },
        None => {
            assert(!entry.contains('='));
            None
        },
    }
}

/// A directory of the proc root stands for a process when its name reads as
/// a `u32`.
pub fn is_process_dir(name: &str) -> (r: bool)
    ensures
        r == parse_unsigned_max(name@, u32::MAX as nat) is Some,
{
    let cs = chars_of(name);
    assert(cs@.subrange(0, cs@.len() as int) =~= name@);
    parse_unsigned_in(&cs, 0, cs.len(), u32::MAX as u64).is_some()
}

/// The PID that the name of a process directory gives, read as an `i32`.
pub fn pid_from_name(name: &str) -> (r: Option<i32>)
    ensures
        r == match parse_signed_range(name@, i32::MIN as int, i32::MAX as int) {
            Some(v) => Some(v as i32),
            None => None,
        },
{
    let cs = chars_of(name);
    assert(cs@.subrange(0, cs@.len() as int) =~= name@);
    match parse_signed_in(&cs, 0, cs.len(), i32::MIN as i64, i32::MAX as i64) {
        Some(v) => Some(v as i32),
        None => None,
    }
}

/// The value of the environment variable `key` in the content of
/// `/proc/<pid>/environ`.
pub fn environ_get(environ: &str, key: &str) -> (r: Option<String>)
    ensures
        r is None <==> environ_var(environ@, key@) is None,
        r matches Some(v) ==> environ_var(environ@, key@) == Some(v@),
{
    let cs = chars_of(environ);
    let nul: [char; 1] = ['\0'];
    assert(nul@ =~= seq!['\0']);
    let ranges = split_ranges(&cs, &nul);
    let ghost entries = split_chars(cs@, seq!['\0']);
    let mut i: usize = ranges.len();
    assert(entries.take(i as int) =~= entries);
    while i > 0
        invariant
            i <= ranges@.len() == entries.len(),
            cs@ == environ@,
            entries == split_chars(cs@, seq!['\0']),
            forall|j: int|
                #![trigger ranges@[j]]
                0 <= j < ranges@.len() ==> ranges@[j].0 <= ranges@[j].1 <= cs@.len()
                    && cs@.subrange(ranges@[j].0 as int, ranges@[j].1 as int) == entries[j],
            env_lookup(entries, key@) == env_lookup(entries.take(i as int), key@),
        decreases i,
    {
        let (a, b) = ranges[i - 1];
        let ghost entry = cs@.subrange(a as int, b as int);
        assert(entries.take(i as int).drop_last() =~= entries.take(i - 1));
        assert(entries.take(i as int).last() == entry);
        match entry_value(environ, &cs, a, b, key) {
            Some(v) => {
                return Some(v);
            },
            None => {},
        }
        i = i - 1;
    }
    None
}


/// `m` with the counters `st` of `id` merged in: the component-wise maximum
/// with what `m` already holds for `id`, or `st` itself.
pub open spec fn merge_gpu(
    m: Map<GpuIdentifier, GpuUsageStats>,
    id: GpuIdentifier,
    st: GpuUsageStats,
) -> Map<GpuIdentifier, GpuUsageStats> {
    if m.contains_key(id) {
        m.insert(id, spec_greater(m[id], st))
    } else {
        m.insert(id, st)
    }
}

/// As [`merge_gpu`], for NPU counters.
pub open spec fn merge_npu(m: Map<PciSlot, NpuUsageStats>, slot: PciSlot, st: NpuUsageStats) -> Map<
    PciSlot,
    NpuUsageStats,
> {
    if m.contains_key(slot) {
        m.insert(slot, spec_npu_greater(m[slot], st))
    } else {
        m.insert(slot, st)
    }
}

/// The GPU counters of a process: the GPU entries of its fdinfos, in order,
/// merged per identifier.
pub open spec fn gpu_accumulated(f: Seq<Fdinfo>) -> Map<GpuIdentifier, GpuUsageStats>
    decreases f.len(),
{
    if f.len() == 0 {
        Map::empty()
    } else {
        let m = gpu_accumulated(f.drop_last());
        match gpu_entry(field_views(f.last().fields@)) {
            Some((id, st)) => merge_gpu(m, id, st),
            None => m,
        }
    }
}

/// The NPU counters of a process: the NPU entries of its fdinfos, in order,
/// merged per slot.
pub open spec fn npu_accumulated(f: Seq<Fdinfo>) -> Map<PciSlot, NpuUsageStats>
    decreases f.len(),
{
    if f.len() == 0 {
        Map::empty()
    } else {
        let m = npu_accumulated(f.drop_last());
        match npu_entry(field_views(f.last().fields@)) {
            Some((slot, st)) => merge_npu(m, slot, st),
            None => m,
        }
    }
}

/// The `(pid, fd)` of the fdinfos that hold no GPU entry, in order.
pub open spec fn non_gpu_fds(f: Seq<Fdinfo>) -> Seq<(i32, usize)>
    decreases f.len(),
{
    if f.len() == 0 {
        Seq::empty()
    } else {
        let rest = non_gpu_fds(f.drop_last());
        match gpu_entry(field_views(f.last().fields@)) {
            Some(_) => rest,
            None => rest.push((f.last().pid, f.last().fd_num)),
        }
    }
}

/// The `(pid, fd)` of the fdinfos that hold no NPU entry, in order.
pub open spec fn non_npu_fds(f: Seq<Fdinfo>) -> Seq<(i32, usize)>
    decreases f.len(),
{
    if f.len() == 0 {
        Seq::empty()
    } else {
        let rest = non_npu_fds(f.drop_last());
        match npu_entry(field_views(f.last().fields@)) {
            Some(_) => rest,
            None => rest.push((f.last().pid, f.last().fd_num)),
        }
    }
}

fn position_gpu(map: &Vec<(GpuIdentifier, GpuUsageStats)>, id: GpuIdentifier) -> (r: Option<usize>)
    ensures
        r matches Some(j) ==> j < map@.len() && map@[j as int].0 == id,
        r is None ==> forall|j: int| 0 <= j < map@.len() ==> map@[j].0 != id,
{
    let mut j: usize = 0;
    while j < map.len()
        invariant
            j <= map@.len(),
            forall|k: int| 0 <= k < j ==> map@[k].0 != id,
        decreases map.len() - j,
    {
        if map[j].0 == id {
            return Some(j);
        }
        j = j + 1;
    }
    None
}

fn position_npu(map: &Vec<(PciSlot, NpuUsageStats)>, slot: PciSlot) -> (r: Option<usize>)
    ensures
        r matches Some(j) ==> j < map@.len() && map@[j as int].0 == slot,
        r is None ==> forall|j: int| 0 <= j < map@.len() ==> map@[j].0 != slot,
{
    let mut j: usize = 0;
    while j < map.len()
        invariant
            j <= map@.len(),
            forall|k: int| 0 <= k < j ==> map@[k].0 != slot,
        decreases map.len() - j,
    {
        if map[j].0 == slot {
            return Some(j);
        }
        j = j + 1;
    }
    None
}

/// Merges the counters `st` of `id` into the association list `map`.
fn merge_gpu_into(map: &mut Vec<(GpuIdentifier, GpuUsageStats)>, id: GpuIdentifier, st: GpuUsageStats)
    requires
        distinct_keys(old(map)@),
    ensures
        distinct_keys(final(map)@),
        pairs_map(final(map)@) == merge_gpu(pairs_map(old(map)@), id, st),
{
    match position_gpu(map, id) {
        Some(j) => {
            let merged = map[j].1.greater(&st);
            proof {
                lemma_pairs_map_at(map@, j as int);
                lemma_pairs_map_update(map@, j as int, merged);
            }
            map.set(j, (id, merged));
        },
        None => {
            proof {
                lemma_pairs_map_dom(map@, id);
                lemma_push_new_key(map@, id, st);
            }
            map.push((id, st));
        },
    }
}

/// Merges the counters `st` of `slot` into the association list `map`.
fn merge_npu_into(map: &mut Vec<(PciSlot, NpuUsageStats)>, slot: PciSlot, st: NpuUsageStats)
    requires
        distinct_keys(old(map)@),
    ensures
        distinct_keys(final(map)@),
        pairs_map(final(map)@) == merge_npu(pairs_map(old(map)@), slot, st),
{
    match position_npu(map, slot) {
        Some(j) => {
            let merged = map[j].1.greater(&st);
            proof {
                lemma_pairs_map_at(map@, j as int);
                lemma_pairs_map_update(map@, j as int, merged);
            }
            map.set(j, (slot, merged));
        },
        None => {
            proof {
                lemma_pairs_map_dom(map@, slot);
                lemma_push_new_key(map@, slot, st);
            }
            map.push((slot, st));
        },
    }
}

/// The GPU counters of a process, merged per GPU, and the `(pid, fd)` of the
/// fdinfos that are not GPU-related.
pub fn accumulate_gpu_stats(fdinfos: &[Fdinfo]) -> (r: (
    Vec<(GpuIdentifier, GpuUsageStats)>,
    Vec<(i32, usize)>,
))
    ensures
        distinct_keys(r.0@),
        pairs_map(r.0@) == gpu_accumulated(fdinfos@),
        r.1@ == non_gpu_fds(fdinfos@),
{
    let mut map: Vec<(GpuIdentifier, GpuUsageStats)> = Vec::new();
    let mut skipped: Vec<(i32, usize)> = Vec::new();
    let mut i: usize = 0;
    assert(pairs_map(map@) =~= Map::<GpuIdentifier, GpuUsageStats>::empty());
    while i < fdinfos.len()
        invariant
            i <= fdinfos@.len(),
            distinct_keys(map@),
            pairs_map(map@) == gpu_accumulated(fdinfos@.take(i as int)),
            skipped@ == non_gpu_fds(fdinfos@.take(i as int)),
        decreases fdinfos.len() - i,
    {
        let ghost prefix = fdinfos@.take(i + 1);
        assert(prefix.drop_last() =~= fdinfos@.take(i as int));
        assert(prefix.last() == fdinfos@[i as int]);
        match extract_gpu_usage(&fdinfos[i]) {
            Ok((id, st)) => {
                merge_gpu_into(&mut map, id, st);
            },
            Err(_) => {
                skipped.push((fdinfos[i].pid, fdinfos[i].fd_num));
            },
        }
        i = i + 1;
    }
    assert(fdinfos@.take(i as int) =~= fdinfos@);
    (map, skipped)
}

/// The NPU counters of a process, merged per NPU, and the `(pid, fd)` of the
/// fdinfos that are not NPU-related.
pub fn accumulate_npu_stats(fdinfos: &[Fdinfo]) -> (r: (
    Vec<(PciSlot, NpuUsageStats)>,
    Vec<(i32, usize)>,
))
    ensures
        distinct_keys(r.0@),
        pairs_map(r.0@) == npu_accumulated(fdinfos@),
        r.1@ == non_npu_fds(fdinfos@),
{
    let mut map: Vec<(PciSlot, NpuUsageStats)> = Vec::new();
    let mut skipped: Vec<(i32, usize)> = Vec::new();
    let mut i: usize = 0;
    assert(pairs_map(map@) =~= Map::<PciSlot, NpuUsageStats>::empty());
    while i < fdinfos.len()
        invariant
            i <= fdinfos@.len(),
            distinct_keys(map@),
            pairs_map(map@) == npu_accumulated(fdinfos@.take(i as int)),
            skipped@ == non_npu_fds(fdinfos@.take(i as int)),
        decreases fdinfos.len() - i,
    {
        let ghost prefix = fdinfos@.take(i + 1);
        assert(prefix.drop_last() =~= fdinfos@.take(i as int));
        assert(prefix.last() == fdinfos@[i as int]);
        match extract_npu_usage(&fdinfos[i]) {
            Ok((slot, st)) => {
                merge_npu_into(&mut map, slot, st);
            },
            Err(_) => {
                skipped.push((fdinfos[i].pid, fdinfos[i].fd_num));
            },
        }
        i = i + 1;
    }
    assert(fdinfos@.take(i as int) =~= fdinfos@);
    (map, skipped)
}

/// Adds the entries of `extra` to `map`, an entry of `extra` replacing the
/// one of `map` with the same identifier (as `BTreeMap::extend` does).
pub fn extend_gpu_stats(
    map: &mut Vec<(GpuIdentifier, GpuUsageStats)>,
    extra: &Vec<(GpuIdentifier, GpuUsageStats)>,
)
    requires
        distinct_keys(old(map)@),
    ensures
        distinct_keys(final(map)@),
        pairs_map(final(map)@) == pairs_map(old(map)@).union_prefer_right(pairs_map(extra@)),
{
    let ghost start = map@;
    let mut i: usize = 0;
    assert(pairs_map(start).union_prefer_right(pairs_map(extra@.take(0))) =~= pairs_map(start));
    while i < extra.len()
        invariant
            i <= extra@.len(),
            distinct_keys(map@),
            pairs_map(map@) == pairs_map(start).union_prefer_right(
                pairs_map(extra@.take(i as int)),
            ),
        decreases extra.len() - i,
    {
        let (id, st) = extra[i];
        let ghost before = pairs_map(map@);
        assert(extra@.take(i + 1).drop_last() =~= extra@.take(i as int));
        assert(extra@.take(i + 1).last() == (id, st));
        match position_gpu(map, id) {
            Some(j) => {
                proof {
                    lemma_pairs_map_update(map@, j as int, st);
                }
                map.set(j, (id, st));
            },
            None => {
                proof {
                    lemma_push_new_key(map@, id, st);
                }
                map.push((id, st));
            },
        }
        assert(pairs_map(map@) =~= pairs_map(start).union_prefer_right(
            pairs_map(extra@.take(i + 1)),
        ));
        i = i + 1;
    }
    assert(extra@.take(i as int) =~= extra@);
}


/// A value that can be read from one field of `/proc/<pid>/stat`.
pub trait StatField: Sized {
    /// The value that the text `s` denotes, if any.
    spec fn spec_from_text(s: Seq<char>) -> Option<Self>;

    /// Reads the value of the text `s`.
    fn from_text(s: &str) -> (r: Option<Self>)
        ensures
            r == Self::spec_from_text(s@),
    ;
}

impl StatField for u64 {
    open spec fn spec_from_text(s: Seq<char>) -> Option<u64> {
        match parse_unsigned_max(s, u64::MAX as nat) {
            Some(v) => Some(v as u64),
            None => None,
        }
    }

    fn from_text(s: &str) -> (r: Option<u64>) {
        let cs = chars_of(s);
        assert(cs@.subrange(0, cs@.len() as int) =~= s@);
        parse_unsigned_in(&cs, 0, cs.len(), u64::MAX)
    }
}

impl StatField for i32 {
    open spec fn spec_from_text(s: Seq<char>) -> Option<i32> {
        match parse_signed_range(s, i32::MIN as int, i32::MAX as int) {
            Some(v) => Some(v as i32),
            None => None,
        }
    }

    fn from_text(s: &str) -> (r: Option<i32>) {
        let cs = chars_of(s);
        assert(cs@.subrange(0, cs@.len() as int) =~= s@);
        match parse_signed_in(&cs, 0, cs.len(), i32::MIN as i64, i32::MAX as i64) {
            Some(v) => Some(v as i32),
            None => None,
        }
    }
}

/// The niceness of value `v`.
pub closed spec fn niceness_from(v: i8) -> Niceness {
    Niceness { value: v }
}

/// A niceness built from a value has that value.
pub proof fn lemma_niceness_from(v: i8)
    ensures
        niceness_from(v).spec_value() == v,
{
}

impl StatField for Niceness {
    open spec fn spec_from_text(s: Seq<char>) -> Option<Niceness> {
        match parse_signed_range(s, -20, 19) {
            Some(v) => Some(niceness_from(v as i8)),
            None => None,
        }
    }

    fn from_text(s: &str) -> (r: Option<Niceness>) {
        let r = Niceness::parse_str(s);
        proof {
            if let Some(n) = r {
                assert(n == niceness_from(n.spec_value()));
            }
        }
        r
    }
}

/// Why a field of `/proc/<pid>/stat` could not be read.
#[derive(Debug, Clone, PartialEq, Eq)]
pub enum StatFieldError {
    /// `stat: missing field '<name>' at index <index>`.
    Missing { name: String, index: usize },
    /// `stat: failed to parse '<name>'`.
    Invalid { name: String },
}

/// Reads field `index` of the stat fields; `name` labels the error.
pub fn parse_stat_field<T: StatField>(fields: &[&str], index: usize, name: &str) -> (r: Result<
    T,
    StatFieldError,
>)
    ensures
        index >= fields@.len() ==> (r matches Err(StatFieldError::Missing { name: n, index: i })
            && n@ == name@ && i == index),
        index < fields@.len() ==> match T::spec_from_text(fields@[index as int]@) {
            Some(v) => r == Ok::<T, StatFieldError>(v),
            None => (r matches Err(StatFieldError::Invalid { name: n }) && n@ == name@),
        },
{
    if index >= fields.len() {
        return Err(StatFieldError::Missing { name: name.to_owned(), index });
    }
    match T::from_text(fields[index]) {
        Some(v) => Ok(v),
        None => Err(StatFieldError::Invalid { name: name.to_owned() }),
    }
}

/// Offset of the stat fields after the command name.
pub const STAT_OFFSET: usize = 2;

/// Index of the parent PID among the stat fields after the command name.
pub const PARENT_PID: usize = 1;

/// Index of the user CPU time.
pub const USER_CPU_TIME: usize = 11;

/// Index of the system CPU time.
pub const SYSTEM_CPU_TIME: usize = 12;

/// Index of the niceness.
pub const NICE: usize = 16;

/// Index of the start time.
pub const STARTTIME: usize = 19;

/// All per-process data collected from procfs / sysfs / DRM / NVML.
#[derive(Debug, Clone)]
pub struct ProcessData {
    pub pid: i32,
    pub parent_pid: i32,
    pub user: String,
    pub comm: String,
    pub commandline: String,
    pub user_cpu_time: u64,
    pub system_cpu_time: u64,
    pub niceness: Niceness,
    pub affinity: Vec<bool>,
    pub memory_usage: usize,
    pub swap_usage: usize,
    /// In clock ticks, see man proc(5).
    pub starttime: u64,
    pub cgroup: Option<String>,
    pub containerization: Containerization,
    pub read_bytes: Option<u64>,
    pub write_bytes: Option<u64>,
    pub timestamp: u64,
    /// Merged counters per GPU; no identifier occurs twice.
    pub gpu_usage_stats: Vec<(GpuIdentifier, GpuUsageStats)>,
    /// Merged counters per NPU; no slot occurs twice.
    pub npu_usage_stats: Vec<(PciSlot, NpuUsageStats)>,
    pub appimage_path: Option<String>,
}

/// What was read for one process: the texts of its procfs files (as read,
/// untrimmed), whether its root holds the Portable and Flatpak markers, its
/// DRM fdinfos and the NVIDIA counters that NVML reports for it.
pub struct ProcFiles {
    pub stat: String,
    pub status: String,
    pub comm: String,
    pub cmdline: String,
    pub io: Option<String>,
    pub cgroup: Option<String>,
    pub environ: String,
    pub portable_marker: bool,
    pub flatpak_info: bool,
    pub fdinfos: Vec<Fdinfo>,
    pub nvidia: Vec<(GpuIdentifier, GpuUsageStats)>,
}

/// What is known of the system: user names by UID, the number of CPUs and the
/// time of the scan in milliseconds since the UNIX epoch.
pub struct SystemInfo {
    pub users: HashMap<u32, String>,
    pub num_cpus: usize,
    pub timestamp: u64,
}

/// Why a process could not be read.
#[derive(Debug, Clone, PartialEq, Eq)]
pub enum ProcessError {
    /// The stat text could not be split.
    Stat(ProcfsError),
    /// A stat field was missing or invalid.
    StatField(StatFieldError),
    /// The UID was not a `u32`.
    Uid(ProcfsError),
}

/// A process's data, and the fdinfos of it that are not GPU- or NPU-related.
pub struct Gathered {
    pub data: ProcessData,
    pub non_gpu_fds: Vec<(i32, usize)>,
    pub non_npu_fds: Vec<(i32, usize)>,
}

/// `s` without the character `c`.
pub open spec fn without_char(s: Seq<char>, c: char) -> Seq<char> {
    s.filter(|x: char| x != c)
}

/// `s` without the character `c`.
pub fn remove_char(s: &str, c: char) -> (r: String)
    ensures
        r@ == without_char(s@, c),
{
    let cs = chars_of(s);
    let mut out = String::new();
    let mut i: usize = 0;
    while i < cs.len()
        invariant
            i <= cs@.len(),
            cs@ == s@,
            out@ == without_char(cs@.take(i as int), c),
        decreases cs.len() - i,
    {
        assert(cs@.take(i + 1).drop_last() =~= cs@.take(i as int));
        if cs[i] != c {
            out.push(cs[i]);
        }
        assert(out@ =~= without_char(cs@.take(i + 1), c)) by {
            reveal_with_fuel(Seq::filter, 1);
        }
        i = i + 1;
    }
    assert(cs@.take(i as int) =~= cs@);
    out
}

/// `s` trimmed, as an owned text.
pub fn trimmed(s: &str) -> (r: String)
    ensures
        r@ == trim(s@),
{
    let cs = chars_of(s);
    let (a, b) = trim_range(&cs, 0, cs.len());
    assert(cs@.subrange(0, cs@.len() as int) =~= s@);
    s.substring_char(a, b).to_owned()
}

/// The user name of `uid`: its entry in `users`, or `root`.
pub open spec fn user_of(users: Map<u32, String>, uid: u32) -> Seq<char> {
    if users.contains_key(uid) {
        users[uid]@
    } else {
        "root"@
    }
}

/// The value of stat field `index`, if present and valid.
pub open spec fn stat_value<T: StatField>(fields: Seq<Seq<char>>, index: int) -> Option<T> {
    if 0 <= index < fields.len() {
        T::spec_from_text(fields[index])
    } else {
        None
    }
}

/// The UID that a status text gives: 0 without a `Uid:` line.
pub open spec fn uid_of(status: Seq<char>) -> Option<u32> {
    match regex_group(UID_PATTERN@, status, 1) {
        None => Some(0),
        Some(c) => match parse_unsigned_max(c, u32::MAX as nat) {
            Some(v) => Some(v as u32),
            None => None,
        },
    }
}

/// The process data is complete exactly when all five stat fields and the UID
/// can be read.
pub open spec fn texts_complete(f: &ProcFiles) -> bool {
    let fields = stat_fields(trim(f.stat@));
    &&& stat_value::<i32>(fields, PARENT_PID as int) is Some
    &&& stat_value::<u64>(fields, USER_CPU_TIME as int) is Some
    &&& stat_value::<u64>(fields, SYSTEM_CPU_TIME as int) is Some
    &&& stat_value::<Niceness>(fields, NICE as int) is Some
    &&& stat_value::<u64>(fields, STARTTIME as int) is Some
    &&& uid_of(trim(f.status@)) is Some
}

/// The view of an optional text.
pub open spec fn opt_view(o: Option<String>) -> Option<Seq<char>> {
    match o {
        Some(s) => Some(s@),
        None => None,
    }
}

/// `data` is what the texts `f` and the system information `sys` describe for
/// process `pid`.
pub open spec fn data_matches(data: ProcessData, pid: i32, f: &ProcFiles, sys: &SystemInfo) -> bool {
    let fields = stat_fields(trim(f.stat@));
    let status = trim(f.status@);
    let cgroup_text = match f.cgroup {
        Some(c) => Some(trim(c@)),
        None => None,
    };
    let launcher = match cgroup_text {
        Some(c) => cgroup_part(c, "launcher"@),
        None => None,
    };
    let appimage = environ_var(trim(f.environ@), "APPIMAGE"@);
    let io_text = match f.io {
        Some(t) => Some(trim(t@)),
        None => None,
    };
    &&& data.pid == pid
    &&& Some(data.parent_pid) == stat_value::<i32>(fields, PARENT_PID as int)
    &&& Some(data.user_cpu_time) == stat_value::<u64>(fields, USER_CPU_TIME as int)
    &&& Some(data.system_cpu_time) == stat_value::<u64>(fields, SYSTEM_CPU_TIME as int)
    &&& Some(data.niceness) == stat_value::<Niceness>(fields, NICE as int)
    &&& Some(data.starttime) == stat_value::<u64>(fields, STARTTIME as int)
    &&& data.user@ == user_of(sys.users@, uid_of(status)->0)
    &&& data.comm@ == without_char(trim(f.comm@), '\n')
    &&& data.commandline@ == trim(f.cmdline@)
    &&& data.affinity@ == affinity_of(
        match regex_group(AFFINITY_PATTERN@, status, 1) {
            Some(c) => c,
            None => Seq::empty(),
        },
        sys.num_cpus as nat,
    )
    &&& data.memory_usage as nat == captured_kb_as_bytes(MEMORY_PATTERN@, status)
    &&& data.swap_usage as nat == captured_kb_as_bytes(SWAP_PATTERN@, status)
    &&& opt_view(data.cgroup) == match cgroup_text {
        Some(c) => cgroup_part(c, "cgroup"@),
        None => None,
    }
    &&& data.containerization == containerization_of(
        trim(f.cmdline@),
        launcher,
        appimage is Some,
        f.portable_marker,
        f.flatpak_info,
    )
    &&& data.read_bytes == match io_text {
        Some(t) => match captured_u64(READ_PATTERN@, t, u64::MAX as nat) {
            Some(v) => Some(v as u64),
            None => None,
        },
        None => None,
    }
    &&& data.write_bytes == match io_text {
        Some(t) => match captured_u64(WRITE_PATTERN@, t, u64::MAX as nat) {
            Some(v) => Some(v as u64),
            None => None,
        },
        None => None,
    }
    &&& data.timestamp == sys.timestamp
    &&& distinct_keys(data.gpu_usage_stats@)
    &&& pairs_map(data.gpu_usage_stats@) == gpu_accumulated(f.fdinfos@).union_prefer_right(
        pairs_map(f.nvidia@),
    )
    &&& distinct_keys(data.npu_usage_stats@)
    &&& pairs_map(data.npu_usage_stats@) == npu_accumulated(f.fdinfos@)
    &&& opt_view(data.appimage_path) == appimage
}


/// Some stat field is missing or invalid.
pub open spec fn stat_fields_fail(f: &ProcFiles) -> bool {
    let fields = stat_fields(trim(f.stat@));
    ||| stat_value::<i32>(fields, PARENT_PID as int) is None
    ||| stat_value::<u64>(fields, USER_CPU_TIME as int) is None
    ||| stat_value::<u64>(fields, SYSTEM_CPU_TIME as int) is None
    ||| stat_value::<Niceness>(fields, NICE as int) is None
    ||| stat_value::<u64>(fields, STARTTIME as int) is None
}

fn stat_field_or_err<T: StatField>(fields: &Vec<&str>, index: usize, name: &str) -> (r: Result<
    T,
    ProcessError,
>)
    ensures
        match stat_value::<T>(fields@.map_values(|x: &str| x@), index as int) {
            Some(v) => r == Ok::<T, ProcessError>(v),
            None => r matches Err(ProcessError::StatField(_)),
        },
{
    let r = parse_stat_field::<T>(fields.as_slice(), index, name);
    if index < fields.len() {
        assert(fields@.map_values(|x: &str| x@)[index as int] == fields@[index as int]@);
    }
    match r {
        Ok(v) => Ok(v),
        Err(e) => Err(ProcessError::StatField(e)),
    }
}

impl ProcessData {
    /// Builds the data of process `pid` from what was read for it.
    pub fn from_proc_files(pid: i32, files: &ProcFiles, sys: &SystemInfo) -> (r: Result<
        Gathered,
        ProcessError,
    >)
        ensures
            r is Ok <==> texts_complete(files),
            r matches Err(e) ==> (e is StatField <==> stat_fields_fail(files)),
            r matches Ok(g) ==> {
                &&& data_matches(g.data, pid, files, sys)
                &&& g.non_gpu_fds@ == non_gpu_fds(files.fdinfos@)
                &&& g.non_npu_fds@ == non_npu_fds(files.fdinfos@)
            },
    {
        broadcast use vstd::std_specs::hash::group_hash_axioms;

        let stat_raw = trimmed(files.stat.as_str());
        let status = trimmed(files.status.as_str());
        let comm_trimmed = trimmed(files.comm.as_str());
        let comm = remove_char(comm_trimmed.as_str(), '\n');
        let commandline = trimmed(files.cmdline.as_str());
        let io: Option<String> = match &files.io {
            Some(t) => Some(trimmed(t.as_str())),
            None => None,
        };
        let cgroup_raw: Option<String> = match &files.cgroup {
            Some(t) => Some(trimmed(t.as_str())),
            None => None,
        };
        let environ = trimmed(files.environ.as_str());

        let stat = match parse_stat(stat_raw.as_str()) {
            Ok(v) => v,
            Err(e) => return Err(ProcessError::Stat(e)),
        };
        let ghost fields = stat_fields(stat_raw@);
        assert(stat@.map_values(|x: &str| x@) =~= fields);

        let parent_pid = stat_field_or_err::<i32>(&stat, PARENT_PID, "parent_pid")?;
        let user_cpu_time = stat_field_or_err::<u64>(&stat, USER_CPU_TIME, "user_cpu_time")?;
        let system_cpu_time = stat_field_or_err::<u64>(&stat, SYSTEM_CPU_TIME, "system_cpu_time")?;
        let nice = stat_field_or_err::<Niceness>(&stat, NICE, "niceness")?;
        let starttime = stat_field_or_err::<u64>(&stat, STARTTIME, "starttime")?;

        let uid = match parse_uid(status.as_str()) {
            Ok(u) => u,
            Err(e) => return Err(ProcessError::Uid(e)),
        };
        let user = match sys.users.get(&uid) {
            Some(name) => name.clone(),
            None => "root".to_owned(),
        };

        let affinity = parse_affinity(status.as_str(), sys.num_cpus);
        let memory_usage = parse_memory_usage(status.as_str());
        let swap_usage = parse_swap_usage(status.as_str());

        let (launcher, cgroup) = match &cgroup_raw {
            Some(c) => sanitize(c.as_str()),
            None => (None, None),
        };

        let appimage_path = environ_get(environ.as_str(), "APPIMAGE");

        let launcher_ref: Option<&str> = match &launcher {
            Some(l) => Some(l.as_str()),
            None => None,
        };
        let containerization = detect_containerization(
            commandline.as_str(),
            launcher_ref,
            appimage_path.is_some(),
            files.portable_marker,
            files.flatpak_info,
        );

        let read_bytes = match &io {
            Some(t) => parse_read_bytes(t.as_str()),
            None => None,
        };
        let write_bytes = match &io {
            Some(t) => parse_write_bytes(t.as_str()),
            None => None,
        };

        let (mut gpu_usage_stats, non_gpu_fds) = accumulate_gpu_stats(files.fdinfos.as_slice());
        extend_gpu_stats(&mut gpu_usage_stats, &files.nvidia);
        let (npu_usage_stats, non_npu_fds) = accumulate_npu_stats(files.fdinfos.as_slice());

        let data = ProcessData {
            pid,
            parent_pid,
            user,
            comm,
            commandline,
            user_cpu_time,
            system_cpu_time,
            niceness: nice,
            affinity,
            memory_usage,
            swap_usage,
            starttime,
            cgroup,
            containerization,
            read_bytes,
            write_bytes,
            timestamp: sys.timestamp,
            gpu_usage_stats,
            npu_usage_stats,
            appimage_path,
        };
        Ok(Gathered { data, non_gpu_fds, non_npu_fds })
    }
}

} // verus!
