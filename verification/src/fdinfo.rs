//! DRM fdinfo files (`/proc/<pid>/fdinfo/<fd>`): their `key: value` fields and
//! the GPU and NPU counters read from them.

use vstd::prelude::*;
use vstd::string::StrSliceExecFns;

use crate::gpu_usage::{GpuIdentifier, GpuUsageStats};
use crate::npu_usage::NpuUsageStats;
use crate::pattern::capture_group;
use crate::pci_slot::{lemma_slot_from, slot_from, slot_text_components, PciSlot};
use crate::procfs::captured_u64;
use crate::text::{
    chars_of, find_char, lemma_split_chars_nonempty, lemma_split_once_at, parse_unsigned_in,
    same_text, split_chars, split_once, split_ranges, trim, trim_range,
};

verus! {

/// A number of KiB; group 1 is the number.
pub const KIB_PATTERN: &'static str = r"(\d+)\s*KiB";

/// A number of nanoseconds; group 1 is the number.
pub const NS_PATTERN: &'static str = r"(\d+)\s*ns";

/// A plain number; group 1 is the number.
pub const UNITS_PATTERN: &'static str = r"(\d+)";

/// Key of the driver name.
pub const DRM_DRIVER: &'static str = "drm-driver";

/// Key of the PCI slot of the device.
pub const DRM_PDEV: &'static str = "drm-pdev";

/// Why an fdinfo does not describe a supported GPU or NPU.
#[derive(Debug, Clone, PartialEq, Eq)]
pub enum FdinfoError {
    /// There is no `drm-driver` field.
    NoDriverField,
    /// The GPU driver is not one the library reads.
    UnsupportedGpuDriver(String),
    /// The NPU driver is not one the library reads.
    UnsupportedNpuDriver(String),
}

/// Parsed contents of one `/proc/<pid>/fdinfo/<fd>` file.
///
/// `fields` holds the `key: value` lines in file order; a key that occurs
/// more than once stands for its last value.
#[derive(Debug, Clone)]
pub struct Fdinfo {
    pub pid: i32,
    pub fd_num: usize,
    pub fields: Vec<(String, String)>,
}

/// The `(key, value)` entries of lines with a `:`: both sides of the first
/// `:`, trimmed.
pub open spec fn entries_of(lines: Seq<Seq<char>>) -> Seq<(Seq<char>, Seq<char>)>
    decreases lines.len(),
{
    if lines.len() == 0 {
        Seq::empty()
    } else {
        let rest = entries_of(lines.drop_last());
        match split_once(lines.last(), ':') {
            Some((k, v)) => rest.push((trim(k), trim(v))),
            None => rest,
        }
    }
}

/// The entries of an fdinfo text, line by line.
pub open spec fn fdinfo_entries(content: Seq<char>) -> Seq<(Seq<char>, Seq<char>)> {
    entries_of(split_chars(content, seq!['\n']))
}

/// The value of the last entry with key `key`.
pub open spec fn lookup(entries: Seq<(Seq<char>, Seq<char>)>, key: Seq<char>) -> Option<Seq<char>>
    decreases entries.len(),
{
    if entries.len() == 0 {
        None
    } else if entries.last().0 == key {
        Some(entries.last().1)
    } else {
        lookup(entries.drop_last(), key)
    }
}

/// The fields of an fdinfo as texts.
pub open spec fn field_views(fields: Seq<(String, String)>) -> Seq<(Seq<char>, Seq<char>)> {
    fields.map_values(|e: (String, String)| (e.0@, e.1@))
}

/// The number of field `key`, read through `pattern` as a `u64`; 0 when the
/// field is missing or holds no such number.
pub open spec fn field_amount(
    entries: Seq<(Seq<char>, Seq<char>)>,
    key: Seq<char>,
    pattern: Seq<char>,
) -> u64 {
    match lookup(entries, key) {
        Some(v) => match captured_u64(pattern, v, u64::MAX as nat) {
            Some(n) => n as u64,
            None => 0,
        },
        None => 0,
    }
}

/// The sum of the amounts of `keys`, wrapping at `u64::MAX` as release builds
/// of `Iterator::sum` do.
pub open spec fn sum_amounts(
    entries: Seq<(Seq<char>, Seq<char>)>,
    keys: Seq<Seq<char>>,
    pattern: Seq<char>,
) -> u64
    decreases keys.len(),
{
    if keys.len() == 0 {
        0
    } else {
        sum_amounts(entries, keys.drop_last(), pattern).wrapping_add(
            field_amount(entries, keys.last(), pattern),
        )
    }
}

/// `v * 1024`, saturating at `u64::MAX`.
pub open spec fn kib_to_bytes(v: u64) -> u64 {
    if v as nat * 1024 <= u64::MAX {
        (v * 1024) as u64
    } else {
        u64::MAX
    }
}

/// The texts of a list of keys.
pub open spec fn key_views(keys: Seq<&str>) -> Seq<Seq<char>> {
    keys.map_values(|k: &str| k@)
}

/// The entry of the line `content[a..b]`, if it holds a `:`.
fn line_entry(content: &str, cs: &Vec<char>, a: usize, b: usize) -> (r: Option<(String, String)>)
    requires
        a <= b <= cs@.len(),
        cs@ == content@,
    ensures
        ({
            let line = cs@.subrange(a as int, b as int);
            match split_once(line, ':') {
                Some((k, v)) => r matches Some(e) && e.0@ == trim(k) && e.1@ == trim(v),
                None => r is None,
            }
        }),
{
    let ghost line = cs@.subrange(a as int, b as int);
    match find_char(cs, a, b, ':') {
        Some(c) => {
            proof {
                lemma_split_once_at(line, ':', c - a);
                assert(line.take(c - a) =~= cs@.subrange(a as int, c as int));
                assert(line.skip(c - a + 1) =~= cs@.subrange(c + 1, b as int));
            }
            let (ka, kb) = trim_range(cs, a, c);
            let (va, vb) = trim_range(cs, c + 1, b);
            let key = content.substring_char(ka, kb).to_owned();
            let value = content.substring_char(va, vb).to_owned();
            Some((key, value))
        },
        None => {
            assert(!line.contains(':'));
            None
        },
    }
}

impl Fdinfo {
    /// Reads the `key: value` lines of `content`.
    pub fn parse(pid: i32, fd_num: usize, content: &str) -> (r: Self)
        ensures
            r.pid == pid,
            r.fd_num == fd_num,
            field_views(r.fields@) == fdinfo_entries(content@),
    {
        let cs = chars_of(content);
        let newline: [char; 1] = ['\n'];
        assert(newline@ =~= seq!['\n']);
        let lines = split_ranges(&cs, &newline);
        let ghost all_lines = split_chars(cs@, seq!['\n']);
        let mut fields: Vec<(String, String)> = Vec::new();
        let mut i: usize = 0;
        while i < lines.len()
            invariant
                i <= lines@.len() == all_lines.len(),
                cs@ == content@,
                all_lines == split_chars(cs@, seq!['\n']),
                forall|j: int|
                    #![trigger lines@[j]]
                    0 <= j < lines@.len() ==> lines@[j].0 <= lines@[j].1 <= cs@.len()
                        && cs@.subrange(lines@[j].0 as int, lines@[j].1 as int) == all_lines[j],
                field_views(fields@) == entries_of(all_lines.take(i as int)),
            decreases lines.len() - i,
        {
            let (a, b) = lines[i];
            let ghost line = cs@.subrange(a as int, b as int);
            assert(all_lines.take(i + 1).drop_last() =~= all_lines.take(i as int));
            assert(all_lines.take(i + 1).last() == line);
            match line_entry(content, &cs, a, b) {
                Some((key, value)) => {
                    let ghost before = fields@;
                    fields.push((key, value));
                    assert(field_views(fields@) =~= field_views(before).push((key@, value@)));
                },
                None => {},
            }
            i = i + 1;
        }
        assert(all_lines.take(i as int) =~= all_lines);
        Fdinfo { pid, fd_num, fields }
    }

    /// The value of field `key` (its last occurrence).
    pub fn get(&self, key: &str) -> (r: Option<&String>)
        ensures
            r is None <==> lookup(field_views(self.fields@), key@) is None,
            r matches Some(v) ==> lookup(field_views(self.fields@), key@) == Some(v@),
    {
        let ghost e = field_views(self.fields@);
        let mut i: usize = self.fields.len();
        assert(e.take(i as int) =~= e);
        while i > 0
            invariant
                i <= self.fields@.len(),
                e == field_views(self.fields@),
                lookup(e, key@) == lookup(e.take(i as int), key@),
            decreases i,
        {
            let ghost t = e.take(i as int);
            assert(t.drop_last() =~= e.take(i - 1));
            if same_text(self.fields[i - 1].0.as_str(), key) {
                return Some(&self.fields[i - 1].1);
            }
            i = i - 1;
        }
        None
    }

    /// The sum of the numbers that `pattern` finds in the fields `keys`.
    fn sum_fields(&self, keys: &[&str], pattern: &str) -> (r: u64)
        ensures
            r == sum_amounts(field_views(self.fields@), key_views(keys@), pattern@),
    {
        let ghost e = field_views(self.fields@);
        let mut total: u64 = 0;
        let mut i: usize = 0;
        while i < keys.len()
            invariant
                i <= keys@.len(),
                e == field_views(self.fields@),
                total == sum_amounts(e, key_views(keys@).take(i as int), pattern@),
            decreases keys.len() - i,
        {
            let ghost kv = key_views(keys@);
            assert(kv.take(i + 1).drop_last() =~= kv.take(i as int));
            assert(kv.take(i + 1).last() == keys@[i as int]@);
            let amount: u64 = match self.get(keys[i]) {
                Some(v) => match capture_group(pattern, v.as_str(), 1) {
                    Some(c) => {
                        let cs = chars_of(c.as_str());
                        assert(cs@.subrange(0, cs@.len() as int) =~= c@);
                        match parse_unsigned_in(&cs, 0, cs.len(), u64::MAX) {
                            Some(n) => n,
                            None => 0,
                        }
                    },
                    None => 0,
                },
                None => 0,
            };
            total = total.wrapping_add(amount);
            i = i + 1;
        }
        assert(key_views(keys@).take(i as int) =~= key_views(keys@));
        total
    }

    fn sum_ns(&self, keys: &[&str]) -> (r: u64)
        ensures
            r == sum_amounts(field_views(self.fields@), key_views(keys@), NS_PATTERN@),
    {
        self.sum_fields(keys, NS_PATTERN)
    }

    fn sum_kib_as_bytes(&self, keys: &[&str]) -> (r: u64)
        ensures
            r == kib_to_bytes(sum_amounts(field_views(self.fields@), key_views(keys@), KIB_PATTERN@)),
    {
        let kib = self.sum_fields(keys, KIB_PATTERN);
        match kib.checked_mul(1024) {
            Some(v) => v,
            None => u64::MAX,
        }
    }

    fn sum_units(&self, keys: &[&str]) -> (r: u64)
        ensures
            r == sum_amounts(field_views(self.fields@), key_views(keys@), UNITS_PATTERN@),
    {
        self.sum_fields(keys, UNITS_PATTERN)
    }
}


/// The slot that the `drm-pdev` field gives, when it holds a valid slot text.
pub open spec fn pdev_slot_of(entries: Seq<(Seq<char>, Seq<char>)>) -> Option<PciSlot> {
    match lookup(entries, DRM_PDEV@) {
        Some(v) => match slot_text_components(v) {
            Some(c) => Some(slot_from(c)),
            None => None,
        },
        None => None,
    }
}

/// The identifier of the GPU of an fdinfo: its PCI slot, or the default
/// enumerator 0.
pub open spec fn gpu_identifier_of(entries: Seq<(Seq<char>, Seq<char>)>) -> GpuIdentifier {
    match pdev_slot_of(entries) {
        Some(s) => GpuIdentifier::PciSlot(s),
        None => GpuIdentifier::Enumerator(0),
    }
}

/// The slot of the NPU of an fdinfo: its PCI slot, or the slot `0000:00:00.0`.
pub open spec fn npu_slot_of(entries: Seq<(Seq<char>, Seq<char>)>) -> PciSlot {
    match pdev_slot_of(entries) {
        Some(s) => s,
        None => slot_from((0u16, 0u8, 0u8, 0u8)),
    }
}

/// The GPU counters that a driver's fields give, for the drivers the library
/// reads.
pub open spec fn gpu_stats_of(driver: Seq<char>, e: Seq<(Seq<char>, Seq<char>)>) -> Option<
    GpuUsageStats,
> {
    if driver == "amdgpu"@ {
        Some(
            GpuUsageStats::AmdgpuStats {
                gfx_ns: sum_amounts(e, seq!["drm-engine-compute"@, "drm-engine-gfx"@], NS_PATTERN@),
                enc_ns: sum_amounts(e, seq!["drm-engine-enc"@], NS_PATTERN@),
                dec_ns: sum_amounts(e, seq!["drm-engine-dec"@], NS_PATTERN@),
                mem_bytes: kib_to_bytes(
                    sum_amounts(e, seq!["drm-memory-gtt"@, "drm-memory-vram"@], KIB_PATTERN@),
                ),
            },
        )
    } else if driver == "i915"@ {
        Some(
            GpuUsageStats::I915Stats {
                gfx_ns: sum_amounts(e, seq!["drm-engine-render"@], NS_PATTERN@),
                video_ns: sum_amounts(e, seq!["drm-engine-video"@], NS_PATTERN@),
            },
        )
    } else if driver == "v3d"@ {
        Some(
            GpuUsageStats::V3dStats {
                gfx_ns: sum_amounts(e, seq!["drm-engine-render"@], NS_PATTERN@),
                mem_bytes: kib_to_bytes(sum_amounts(e, seq!["drm-total-memory"@], KIB_PATTERN@)),
            },
        )
    } else if driver == "xe"@ {
        Some(
            GpuUsageStats::XeStats {
                gfx_cycles: sum_amounts(e, seq!["drm-cycles-rcs"@], UNITS_PATTERN@),
                gfx_total_cycles: sum_amounts(e, seq!["drm-total-cycles-rcs"@], UNITS_PATTERN@),
                compute_cycles: sum_amounts(e, seq!["drm-cycles-ccs"@], UNITS_PATTERN@),
                compute_total_cycles: sum_amounts(e, seq!["drm-total-cycles-ccs"@], UNITS_PATTERN@),
                video_cycles: sum_amounts(e, seq!["drm-cycles-vcs"@], UNITS_PATTERN@),
                video_total_cycles: sum_amounts(e, seq!["drm-total-cycles-vcs"@], UNITS_PATTERN@),
                mem_bytes: kib_to_bytes(
                    sum_amounts(e, seq!["drm-total-gtt"@, "drm-total-vram0"@], KIB_PATTERN@),
                ),
            },
        )
    } else {
        None
    }
}

/// The NPU counters that a driver's fields give, for the drivers the library
/// reads.
pub open spec fn npu_stats_of(driver: Seq<char>, e: Seq<(Seq<char>, Seq<char>)>) -> Option<
    NpuUsageStats,
> {
    if driver == "amdxdna_accel_driver"@ {
        Some(
            NpuUsageStats::AmdxdnaStats {
                usage_ns: sum_amounts(e, seq!["drm-engine-npu-amdxdna"@], NS_PATTERN@),
                mem_bytes: kib_to_bytes(sum_amounts(e, seq!["drm-total-memory"@], KIB_PATTERN@)),
            },
        )
    } else {
        None
    }
}

/// The GPU entry of an fdinfo: identifier and counters, for a supported driver.
pub open spec fn gpu_entry(e: Seq<(Seq<char>, Seq<char>)>) -> Option<(GpuIdentifier, GpuUsageStats)> {
    match lookup(e, DRM_DRIVER@) {
        Some(d) => match gpu_stats_of(d, e) {
            Some(st) => Some((gpu_identifier_of(e), st)),
            None => None,
        },
        None => None,
    }
}

/// The NPU entry of an fdinfo: slot and counters, for a supported driver.
pub open spec fn npu_entry(e: Seq<(Seq<char>, Seq<char>)>) -> Option<(PciSlot, NpuUsageStats)> {
    match lookup(e, DRM_DRIVER@) {
        Some(d) => match npu_stats_of(d, e) {
            Some(st) => Some((npu_slot_of(e), st)),
            None => None,
        },
        None => None,
    }
}

/// What [`extract_gpu_usage`] gives for an fdinfo with fields `e`.
pub open spec fn gpu_usage_matches(
    r: Result<(GpuIdentifier, GpuUsageStats), FdinfoError>,
    e: Seq<(Seq<char>, Seq<char>)>,
) -> bool {
    match lookup(e, DRM_DRIVER@) {
        None => r == Err::<(GpuIdentifier, GpuUsageStats), FdinfoError>(FdinfoError::NoDriverField),
        Some(d) => match gpu_entry(e) {
            Some(p) => r == Ok::<(GpuIdentifier, GpuUsageStats), FdinfoError>(p),
            None => r matches Err(FdinfoError::UnsupportedGpuDriver(name)) && name@ == d,
        },
    }
}

/// What [`extract_npu_usage`] gives for an fdinfo with fields `e`.
pub open spec fn npu_usage_matches(
    r: Result<(PciSlot, NpuUsageStats), FdinfoError>,
    e: Seq<(Seq<char>, Seq<char>)>,
) -> bool {
    match lookup(e, DRM_DRIVER@) {
        None => r == Err::<(PciSlot, NpuUsageStats), FdinfoError>(FdinfoError::NoDriverField),
        Some(d) => match npu_entry(e) {
            Some(p) => r == Ok::<(PciSlot, NpuUsageStats), FdinfoError>(p),
            None => r matches Err(FdinfoError::UnsupportedNpuDriver(name)) && name@ == d,
        },
    }
}

/// The slot of the `drm-pdev` field, if it holds a valid slot text.
fn pdev_slot(fdinfo: &Fdinfo) -> (r: Option<PciSlot>)
    ensures
        r == pdev_slot_of(field_views(fdinfo.fields@)),
{
    match fdinfo.get(DRM_PDEV) {
        Some(v) => match PciSlot::parse_str(v.as_str()) {
            Ok(s) => {
                proof {
                    let c = slot_text_components(v@).unwrap();
                    lemma_slot_from(c, s);
                }
                Some(s)
            },
            Err(_) => None,
        },
        None => None,
    }
}

/// The GPU identifier and counters of one fdinfo.
pub fn extract_gpu_usage(fdinfo: &Fdinfo) -> (r: Result<(GpuIdentifier, GpuUsageStats), FdinfoError>)
    ensures
        gpu_usage_matches(r, field_views(fdinfo.fields@)),
{
    let driver = match fdinfo.get(DRM_DRIVER) {
        Some(d) => d,
        None => return Err(FdinfoError::NoDriverField),
    };
    let identifier = match pdev_slot(fdinfo) {
        Some(s) => GpuIdentifier::PciSlot(s),
        None => GpuIdentifier::Enumerator(0),
    };
    let d = driver.as_str();
    let stats = if same_text(d, "amdgpu") {
        let gfx: [&str; 2] = ["drm-engine-compute", "drm-engine-gfx"];
        let enc: [&str; 1] = ["drm-engine-enc"];
        let dec: [&str; 1] = ["drm-engine-dec"];
        let mem: [&str; 2] = ["drm-memory-gtt", "drm-memory-vram"];
        assert(key_views(gfx@) =~= seq!["drm-engine-compute"@, "drm-engine-gfx"@]);
        assert(key_views(enc@) =~= seq!["drm-engine-enc"@]);
        assert(key_views(dec@) =~= seq!["drm-engine-dec"@]);
        assert(key_views(mem@) =~= seq!["drm-memory-gtt"@, "drm-memory-vram"@]);
        GpuUsageStats::AmdgpuStats {
            gfx_ns: fdinfo.sum_ns(&gfx),
            enc_ns: fdinfo.sum_ns(&enc),
            dec_ns: fdinfo.sum_ns(&dec),
            mem_bytes: fdinfo.sum_kib_as_bytes(&mem),
        }
    } else if same_text(d, "i915") {
        let render: [&str; 1] = ["drm-engine-render"];
        let video: [&str; 1] = ["drm-engine-video"];
        assert(key_views(render@) =~= seq!["drm-engine-render"@]);
        assert(key_views(video@) =~= seq!["drm-engine-video"@]);
        GpuUsageStats::I915Stats { gfx_ns: fdinfo.sum_ns(&render), video_ns: fdinfo.sum_ns(&video) }
    } else if same_text(d, "v3d") {
        let render: [&str; 1] = ["drm-engine-render"];
        let mem: [&str; 1] = ["drm-total-memory"];
        assert(key_views(render@) =~= seq!["drm-engine-render"@]);
        assert(key_views(mem@) =~= seq!["drm-total-memory"@]);
        GpuUsageStats::V3dStats {
            gfx_ns: fdinfo.sum_ns(&render),
            mem_bytes: fdinfo.sum_kib_as_bytes(&mem),
        }
    } else if same_text(d, "xe") {
        let rcs: [&str; 1] = ["drm-cycles-rcs"];
        let rcs_total: [&str; 1] = ["drm-total-cycles-rcs"];
        let ccs: [&str; 1] = ["drm-cycles-ccs"];
        let ccs_total: [&str; 1] = ["drm-total-cycles-ccs"];
        let vcs: [&str; 1] = ["drm-cycles-vcs"];
        let vcs_total: [&str; 1] = ["drm-total-cycles-vcs"];
        let mem: [&str; 2] = ["drm-total-gtt", "drm-total-vram0"];
        assert(key_views(rcs@) =~= seq!["drm-cycles-rcs"@]);
        assert(key_views(rcs_total@) =~= seq!["drm-total-cycles-rcs"@]);
        assert(key_views(ccs@) =~= seq!["drm-cycles-ccs"@]);
        assert(key_views(ccs_total@) =~= seq!["drm-total-cycles-ccs"@]);
        assert(key_views(vcs@) =~= seq!["drm-cycles-vcs"@]);
        assert(key_views(vcs_total@) =~= seq!["drm-total-cycles-vcs"@]);
        assert(key_views(mem@) =~= seq!["drm-total-gtt"@, "drm-total-vram0"@]);
        GpuUsageStats::XeStats {
            gfx_cycles: fdinfo.sum_units(&rcs),
            gfx_total_cycles: fdinfo.sum_units(&rcs_total),
            compute_cycles: fdinfo.sum_units(&ccs),
            compute_total_cycles: fdinfo.sum_units(&ccs_total),
            video_cycles: fdinfo.sum_units(&vcs),
            video_total_cycles: fdinfo.sum_units(&vcs_total),
            mem_bytes: fdinfo.sum_kib_as_bytes(&mem),
        }
    } else {
        return Err(FdinfoError::UnsupportedGpuDriver(driver.clone()));
    };
    Ok((identifier, stats))
}

/// The PCI slot and counters of one NPU fdinfo.
pub fn extract_npu_usage(fdinfo: &Fdinfo) -> (r: Result<(PciSlot, NpuUsageStats), FdinfoError>)
    ensures
        npu_usage_matches(r, field_views(fdinfo.fields@)),
{
    let driver = match fdinfo.get(DRM_DRIVER) {
        Some(d) => d,
        None => return Err(FdinfoError::NoDriverField),
    };
    let slot = match pdev_slot(fdinfo) {
        Some(s) => s,
        None => {
            let s = PciSlot::default();
            proof {
                lemma_slot_from((0u16, 0u8, 0u8, 0u8), s);
            }
            s
        },
    };
    if same_text(driver.as_str(), "amdxdna_accel_driver") {
        let npu: [&str; 1] = ["drm-engine-npu-amdxdna"];
        let mem: [&str; 1] = ["drm-total-memory"];
        assert(key_views(npu@) =~= seq!["drm-engine-npu-amdxdna"@]);
        assert(key_views(mem@) =~= seq!["drm-total-memory"@]);
        Ok(
            (
                slot,
                NpuUsageStats::AmdxdnaStats {
                    usage_ns: fdinfo.sum_ns(&npu),
                    mem_bytes: fdinfo.sum_kib_as_bytes(&mem),
                },
            ),
        )
    } else {
        Err(FdinfoError::UnsupportedNpuDriver(driver.clone()))
    }
}

/// The number that the value of field `key` holds, read through `pattern`;
/// 0 when the field is missing or holds no `u64`.
pub open spec fn number_in_field(e: Seq<(Seq<char>, Seq<char>)>, key: Seq<char>, pattern: Seq<char>) -> int {
    match lookup(e, key) {
        Some(v) => match captured_u64(pattern, v, u64::MAX as nat) {
            Some(n) => n as int,
            None => 0,
        },
        None => 0,
    }
}

/// A sum of counters as a `u64` counter holds it: wrapped at `2^64`.
pub open spec fn wrapped(x: int) -> int {
    x % 0x1_0000_0000_0000_0000
}

/// KiB as bytes, saturating at `u64::MAX`.
pub open spec fn kib_as_bytes(kib: int) -> int {
    if kib * 1024 <= u64::MAX {
        kib * 1024
    } else {
        u64::MAX as int
    }
}

proof fn lemma_one_key(e: Seq<(Seq<char>, Seq<char>)>, k: Seq<char>, pattern: Seq<char>)
    ensures
        sum_amounts(e, seq![k], pattern) as int == number_in_field(e, k, pattern),
{
    reveal_with_fuel(sum_amounts, 2);
    assert(seq![k].drop_last() =~= Seq::<Seq<char>>::empty());
}

proof fn lemma_two_keys(e: Seq<(Seq<char>, Seq<char>)>, k1: Seq<char>, k2: Seq<char>, pattern: Seq<char>)
    ensures
        sum_amounts(e, seq![k1, k2], pattern) as int == wrapped(
            number_in_field(e, k1, pattern) + number_in_field(e, k2, pattern),
        ),
{
    reveal_with_fuel(sum_amounts, 3);
    assert(seq![k1, k2].drop_last() =~= seq![k1]);
    assert(seq![k1].drop_last() =~= Seq::<Seq<char>>::empty());
    let a = number_in_field(e, k1, pattern);
    let b = number_in_field(e, k2, pattern);
    assert(0 <= a < 0x1_0000_0000_0000_0000 && 0 <= b < 0x1_0000_0000_0000_0000);
    if a + b >= 0x1_0000_0000_0000_0000 {
        vstd::arithmetic::div_mod::lemma_mod_sub_multiples_vanish(a + b, 0x1_0000_0000_0000_0000);
        vstd::arithmetic::div_mod::lemma_small_mod((a + b - 0x1_0000_0000_0000_0000) as nat, 0x1_0000_0000_0000_0000);
    } else {
        vstd::arithmetic::div_mod::lemma_small_mod((a + b) as nat, 0x1_0000_0000_0000_0000);
    }
}

/// An fdinfo of an amdgpu GPU gives its graphics time as the compute plus
/// graphics engine times, its encode and decode times as the times of the
/// encode and decode engines, and its memory as the GTT plus VRAM KiB in
/// bytes; a missing field counts 0.
pub proof fn lemma_amdgpu_fields(e: Seq<(Seq<char>, Seq<char>)>)
    requires
        lookup(e, DRM_DRIVER@) == Some("amdgpu"@),
    ensures
        gpu_entry(e) matches Some((_, GpuUsageStats::AmdgpuStats { gfx_ns, enc_ns, dec_ns, mem_bytes }))
            && gfx_ns as int == wrapped(
            number_in_field(e, "drm-engine-compute"@, NS_PATTERN@) + number_in_field(
                e,
                "drm-engine-gfx"@,
                NS_PATTERN@,
            ),
        ) && enc_ns as int == number_in_field(e, "drm-engine-enc"@, NS_PATTERN@) && dec_ns as int
            == number_in_field(e, "drm-engine-dec"@, NS_PATTERN@) && mem_bytes as int == kib_as_bytes(
            wrapped(
                number_in_field(e, "drm-memory-gtt"@, KIB_PATTERN@) + number_in_field(
                    e,
                    "drm-memory-vram"@,
                    KIB_PATTERN@,
                ),
            ),
        ),
{
    lemma_two_keys(e, "drm-engine-compute"@, "drm-engine-gfx"@, NS_PATTERN@);
    lemma_one_key(e, "drm-engine-enc"@, NS_PATTERN@);
    lemma_one_key(e, "drm-engine-dec"@, NS_PATTERN@);
    lemma_two_keys(e, "drm-memory-gtt"@, "drm-memory-vram"@, KIB_PATTERN@);
}

/// An fdinfo of an i915 GPU gives its graphics time as the render engine
/// time and its video time as the video engine time.
pub proof fn lemma_i915_fields(e: Seq<(Seq<char>, Seq<char>)>)
    requires
        lookup(e, DRM_DRIVER@) == Some("i915"@),
    ensures
        gpu_entry(e) matches Some((_, GpuUsageStats::I915Stats { gfx_ns, video_ns })) && gfx_ns as int
            == number_in_field(e, "drm-engine-render"@, NS_PATTERN@) && video_ns as int
            == number_in_field(e, "drm-engine-video"@, NS_PATTERN@),
{
    reveal_strlit("i915");
    reveal_strlit("amdgpu");
    assert("i915"@.len() != "amdgpu"@.len());
    lemma_one_key(e, "drm-engine-render"@, NS_PATTERN@);
    lemma_one_key(e, "drm-engine-video"@, NS_PATTERN@);
}

/// An fdinfo of a v3d GPU gives its graphics time as the render engine time
/// and its memory as its total memory KiB in bytes.
pub proof fn lemma_v3d_fields(e: Seq<(Seq<char>, Seq<char>)>)
    requires
        lookup(e, DRM_DRIVER@) == Some("v3d"@),
    ensures
        gpu_entry(e) matches Some((_, GpuUsageStats::V3dStats { gfx_ns, mem_bytes })) && gfx_ns as int
            == number_in_field(e, "drm-engine-render"@, NS_PATTERN@) && mem_bytes as int
            == kib_as_bytes(number_in_field(e, "drm-total-memory"@, KIB_PATTERN@)),
{
    reveal_strlit("v3d");
    reveal_strlit("amdgpu");
    reveal_strlit("i915");
    assert("v3d"@.len() != "amdgpu"@.len());
    assert("v3d"@.len() != "i915"@.len());
    lemma_one_key(e, "drm-engine-render"@, NS_PATTERN@);
    lemma_one_key(e, "drm-total-memory"@, KIB_PATTERN@);
}

/// An fdinfo of an xe GPU gives the busy and total cycles of its render
/// (rcs), compute (ccs) and video (vcs) engines, and its memory as the GTT
/// plus VRAM KiB in bytes.
pub proof fn lemma_xe_fields(e: Seq<(Seq<char>, Seq<char>)>)
    requires
        lookup(e, DRM_DRIVER@) == Some("xe"@),
    ensures
        gpu_entry(e) matches Some(
            (
                _,
                GpuUsageStats::XeStats {
                    gfx_cycles,
                    gfx_total_cycles,
                    compute_cycles,
                    compute_total_cycles,
                    video_cycles,
                    video_total_cycles,
                    mem_bytes,
                },
            ),
        ) && gfx_cycles as int == number_in_field(e, "drm-cycles-rcs"@, UNITS_PATTERN@)
            && gfx_total_cycles as int == number_in_field(e, "drm-total-cycles-rcs"@, UNITS_PATTERN@)
            && compute_cycles as int == number_in_field(e, "drm-cycles-ccs"@, UNITS_PATTERN@)
            && compute_total_cycles as int == number_in_field(e, "drm-total-cycles-ccs"@, UNITS_PATTERN@)
            && video_cycles as int == number_in_field(e, "drm-cycles-vcs"@, UNITS_PATTERN@)
            && video_total_cycles as int == number_in_field(e, "drm-total-cycles-vcs"@, UNITS_PATTERN@)
            && mem_bytes as int == kib_as_bytes(
            wrapped(
                number_in_field(e, "drm-total-gtt"@, KIB_PATTERN@) + number_in_field(
                    e,
                    "drm-total-vram0"@,
                    KIB_PATTERN@,
                ),
            ),
        ),
{
    reveal_strlit("xe");
    reveal_strlit("v3d");
    reveal_strlit("amdgpu");
    reveal_strlit("i915");
    assert("xe"@.len() != "amdgpu"@.len());
    assert("xe"@.len() != "i915"@.len());
    assert("xe"@.len() != "v3d"@.len());
    assert("v3d"@.len() != "amdgpu"@.len());
    assert("v3d"@.len() != "i915"@.len());
    lemma_one_key(e, "drm-cycles-rcs"@, UNITS_PATTERN@);
    lemma_one_key(e, "drm-total-cycles-rcs"@, UNITS_PATTERN@);
    lemma_one_key(e, "drm-cycles-ccs"@, UNITS_PATTERN@);
    lemma_one_key(e, "drm-total-cycles-ccs"@, UNITS_PATTERN@);
    lemma_one_key(e, "drm-cycles-vcs"@, UNITS_PATTERN@);
    lemma_one_key(e, "drm-total-cycles-vcs"@, UNITS_PATTERN@);
    lemma_two_keys(e, "drm-total-gtt"@, "drm-total-vram0"@, KIB_PATTERN@);
}

/// The GPU of an fdinfo with a supported driver is the slot its `drm-pdev`
/// field names, or enumerator 0 when that field is missing or not a slot.
pub proof fn lemma_gpu_identifier(e: Seq<(Seq<char>, Seq<char>)>)
    requires
        gpu_entry(e) is Some,
    ensures
        match lookup(e, "drm-pdev"@) {
            Some(t) => match slot_text_components(t) {
                Some(c) => gpu_entry(e) matches Some((GpuIdentifier::PciSlot(s), _)) && s@ == c,
                None => gpu_entry(e) matches Some((GpuIdentifier::Enumerator(n), _)) && n == 0,
            },
            None => gpu_entry(e) matches Some((GpuIdentifier::Enumerator(n), _)) && n == 0,
        },
{
    if let Some(t) = lookup(e, DRM_PDEV@) {
        if let Some(c) = slot_text_components(t) {
            crate::pci_slot::lemma_components_in_range(t);
            lemma_slot_from(c, slot_from(c));
        }
    }
}

/// An fdinfo of an amdxdna NPU gives its busy time as the NPU engine time
/// and its memory as its total memory KiB in bytes.
pub proof fn lemma_amdxdna_fields(e: Seq<(Seq<char>, Seq<char>)>)
    requires
        lookup(e, DRM_DRIVER@) == Some("amdxdna_accel_driver"@),
    ensures
        npu_entry(e) matches Some((_, NpuUsageStats::AmdxdnaStats { usage_ns, mem_bytes }))
            && usage_ns as int == number_in_field(e, "drm-engine-npu-amdxdna"@, NS_PATTERN@)
            && mem_bytes as int == kib_as_bytes(number_in_field(e, "drm-total-memory"@, KIB_PATTERN@)),
{
    lemma_one_key(e, "drm-engine-npu-amdxdna"@, NS_PATTERN@);
    lemma_one_key(e, "drm-total-memory"@, KIB_PATTERN@);
}

} // verus!
