//! NVIDIA per-process counters: what NVML reports for each GPU, summed per
//! process.

use vstd::prelude::*;

use crate::assoc::{distinct_keys, lemma_pairs_map_update, lemma_push_new_key, pairs_map};
use crate::gpu_usage::{GpuIdentifier, GpuUsageStats, IntegerPercentage, IntegerPercentageError};
use crate::pci_slot::PciSlot;

verus! {

/// One utilisation sample of a process on a GPU, as NVML reports it.
#[derive(Debug, Clone, Copy, PartialEq, Eq, Structural)]
pub struct UtilSample {
    pub pid: u32,
    /// Streaming multiprocessor (3D and compute) utilisation.
    pub sm_util: u32,
    /// Encoder utilisation.
    pub enc_util: u32,
    /// Decoder utilisation.
    pub dec_util: u32,
}

/// The GPU memory a process uses, as NVML reports it: `None` where NVML
/// reports it unavailable.
#[derive(Debug, Clone, Copy, PartialEq, Eq, Structural)]
pub struct ProcessMemory {
    pub pid: u32,
    pub used_bytes: Option<u64>,
}

/// What NVML reported for one GPU at the last refresh: its utilisation
/// samples and its graphics and compute processes.
#[derive(Debug, Clone)]
pub struct NvidiaReading {
    pub slot: PciSlot,
    pub samples: Vec<UtilSample>,
    pub processes: Vec<ProcessMemory>,
}

/// The readings of all NVIDIA GPUs at the last refresh.
#[derive(Debug, Clone)]
pub struct NvidiaState {
    readings: Vec<NvidiaReading>,
}

/// The sums of the SM, encoder and decoder utilisation of the samples of
/// process `pid`.
pub open spec fn util_totals(s: Seq<UtilSample>, pid: u32) -> (nat, nat, nat)
    decreases s.len(),
{
    if s.len() == 0 {
        (0, 0, 0)
    } else {
        let t = util_totals(s.drop_last(), pid);
        let x = s.last();
        if x.pid == pid {
            (t.0 + x.sm_util as nat, t.1 + x.enc_util as nat, t.2 + x.dec_util as nat)
        } else {
            t
        }
    }
}

/// The GPU memory used by process `pid`, an unavailable amount counting 0.
pub open spec fn memory_total(p: Seq<ProcessMemory>, pid: u32) -> nat
    decreases p.len(),
{
    if p.len() == 0 {
        0
    } else {
        let t = memory_total(p.drop_last(), pid);
        let x = p.last();
        if x.pid == pid {
            t + match x.used_bytes {
                Some(b) => b as nat,
                None => 0,
            }
        } else {
            t
        }
    }
}

/// The low byte of a utilisation sum: what the percentage is read from.
pub open spec fn low_byte(n: nat) -> u8 {
    (n % 256) as u8
}

/// The counters of process `pid` on a GPU with the given samples and
/// processes: the utilisation sums, each read as a percentage from its low
/// byte (an error where that byte is above 100), and the memory sum. The sums
/// wrap around at the width of their type.
pub open spec fn nvidia_stats_of(s: Seq<UtilSample>, p: Seq<ProcessMemory>, pid: u32) -> Option<
    (u8, u8, u8, u64),
> {
    let t = util_totals(s, pid);
    if low_byte(t.0) <= 100 && low_byte(t.1) <= 100 && low_byte(t.2) <= 100 {
        Some((low_byte(t.0), low_byte(t.1), low_byte(t.2), (memory_total(p, pid) % 0x1_0000_0000_0000_0000) as u64))
    } else {
        None
    }
}

/// `st` holds the percentages and memory of `v`.
pub open spec fn nvidia_stats_are(st: GpuUsageStats, v: (u8, u8, u8, u64)) -> bool {
    match st {
        GpuUsageStats::NvidiaStats { gfx_percentage, enc_percentage, dec_percentage, mem_bytes } => {
            &&& gfx_percentage.spec_value() == v.0
            &&& enc_percentage.spec_value() == v.1
            &&& dec_percentage.spec_value() == v.2
            &&& mem_bytes == v.3
        },
        _ => false,
    }
}

proof fn lemma_wrapping_step(acc: u64, total: nat, y: nat, m: nat)
    requires
        m > 0,
        acc == total % m,
        y < m,
    ensures
        (if acc + y >= m { acc + y - m } else { acc + y }) == (total + y) % m,
{
    vstd::arithmetic::div_mod::lemma_add_mod_noop(total as int, y as int, m as int);
    vstd::arithmetic::div_mod::lemma_small_mod(y, m);
    if acc + y >= m {
        vstd::arithmetic::div_mod::lemma_mod_sub_multiples_vanish((acc + y) as int, m as int);
        vstd::arithmetic::div_mod::lemma_small_mod((acc + y - m) as nat, m);
    } else {
        vstd::arithmetic::div_mod::lemma_small_mod((acc + y) as nat, m);
    }
}

proof fn lemma_low_byte_of_wrapped(acc: u32, total: nat)
    requires
        acc == total % 0x1_0000_0000,
    ensures
        (acc as u8) == low_byte(total),
{
    assert((acc as u8) == acc % 256) by (bit_vector);
    vstd::arithmetic::div_mod::lemma_mod_mod(total as int, 256, 0x100_0000);
}

/// The counters of process `pid` on one GPU: the SM, encoder and decoder
/// utilisation of its samples and its memory, each summed (wrapping around
/// at the width of the sum's type), the utilisations read as percentages
/// from the low byte of their sums.
pub fn stats_for_pid(pid: i32, samples: &Vec<UtilSample>, processes: &Vec<ProcessMemory>) -> (r:
    Result<GpuUsageStats, IntegerPercentageError>)
    ensures
        match nvidia_stats_of(samples@, processes@, pid as u32) {
            Some(v) => r matches Ok(st) && nvidia_stats_are(st, v),
            None => r == Err::<GpuUsageStats, IntegerPercentageError>(
                IntegerPercentageError::LessOrEqualViolated,
            ),
        },
{
    let key = pid as u32;
    let mut sm: u32 = 0;
    let mut enc: u32 = 0;
    let mut dec: u32 = 0;
    let mut i: usize = 0;
    while i < samples.len()
        invariant
            i <= samples@.len(),
            key == pid as u32,
            sm as nat == util_totals(samples@.take(i as int), key).0 % 0x1_0000_0000,
            enc as nat == util_totals(samples@.take(i as int), key).1 % 0x1_0000_0000,
            dec as nat == util_totals(samples@.take(i as int), key).2 % 0x1_0000_0000,
        decreases samples.len() - i,
    {
        let s = samples[i];
        let ghost t = util_totals(samples@.take(i as int), key);
        assert(samples@.take(i + 1).drop_last() =~= samples@.take(i as int));
        assert(samples@.take(i + 1).last() == s);
        if s.pid == key {
            proof {
                lemma_wrapping_step(sm as u64, t.0, s.sm_util as nat, 0x1_0000_0000);
                lemma_wrapping_step(enc as u64, t.1, s.enc_util as nat, 0x1_0000_0000);
                lemma_wrapping_step(dec as u64, t.2, s.dec_util as nat, 0x1_0000_0000);
            }
            sm = sm.wrapping_add(s.sm_util);
            enc = enc.wrapping_add(s.enc_util);
            dec = dec.wrapping_add(s.dec_util);
        }
        i = i + 1;
    }
    assert(samples@.take(i as int) =~= samples@);
    let mut mem: u64 = 0;
    let mut j: usize = 0;
    while j < processes.len()
        invariant
            j <= processes@.len(),
            key == pid as u32,
            mem as nat == memory_total(processes@.take(j as int), key) % 0x1_0000_0000_0000_0000,
        decreases processes.len() - j,
    {
        let p = processes[j];
        let ghost t = memory_total(processes@.take(j as int), key);
        assert(processes@.take(j + 1).drop_last() =~= processes@.take(j as int));
        assert(processes@.take(j + 1).last() == p);
        if p.pid == key {
            let used: u64 = match p.used_bytes {
                Some(b) => b,
                None => 0,
            };
            proof {
                lemma_wrapping_step(mem, t, used as nat, 0x1_0000_0000_0000_0000);
            }
            mem = mem.wrapping_add(used);
        }
        j = j + 1;
    }
    assert(processes@.take(j as int) =~= processes@);
    let ghost t = util_totals(samples@, key);
    proof {
        lemma_low_byte_of_wrapped(sm, t.0);
        lemma_low_byte_of_wrapped(enc, t.1);
        lemma_low_byte_of_wrapped(dec, t.2);
    }
    match (
        IntegerPercentage::try_new(sm as u8),
        IntegerPercentage::try_new(enc as u8),
        IntegerPercentage::try_new(dec as u8),
    ) {
        (Ok(gfx_percentage), Ok(enc_percentage), Ok(dec_percentage)) => Ok(
            GpuUsageStats::NvidiaStats { gfx_percentage, enc_percentage, dec_percentage, mem_bytes: mem },
        ),
        _ => Err(IntegerPercentageError::LessOrEqualViolated),
    }
}


/// The counters of process `pid` on each GPU of `rs` whose counters are valid,
/// by GPU; a later reading of the same slot replacing an earlier one.
pub open spec fn nvidia_map(rs: Seq<NvidiaReading>, pid: u32) -> Map<GpuIdentifier, (u8, u8, u8, u64)>
    decreases rs.len(),
{
    if rs.len() == 0 {
        Map::empty()
    } else {
        let m = nvidia_map(rs.drop_last(), pid);
        let x = rs.last();
        match nvidia_stats_of(x.samples@, x.processes@, pid) {
            Some(v) => m.insert(GpuIdentifier::PciSlot(x.slot), v),
            None => m,
        }
    }
}

/// `m` holds, for the same GPUs, the counters that `s` describes.
pub open spec fn stats_map_is(m: Map<GpuIdentifier, GpuUsageStats>, s: Map<GpuIdentifier, (u8, u8, u8, u64)>) -> bool {
    &&& m.dom() == s.dom()
    &&& forall|k: GpuIdentifier| #[trigger] m.contains_key(k) ==> nvidia_stats_are(m[k], s[k])
}

/// The moment that NVML utilisation samples are asked for since: five
/// seconds before `now_ms`, in microseconds, saturating at both ends.
pub open spec fn window_start(now_ms: u64) -> u64 {
    let us: int = if now_ms * 1000 > u64::MAX { u64::MAX as int } else { now_ms * 1000 };
    if us < 5_000_000 { 0 } else { (us - 5_000_000) as u64 }
}

/// The timestamp (in microseconds) from which NVML utilisation samples are
/// requested at a refresh at `now_ms` milliseconds: five seconds earlier.
pub fn utilization_since(now_ms: u64) -> (r: u64)
    ensures
        r == window_start(now_ms),
{
    let us: u64 = if now_ms > u64::MAX / 1000 {
        u64::MAX
    } else {
        now_ms * 1000
    };
    us.saturating_sub(5_000_000)
}

fn position_of(map: &Vec<(GpuIdentifier, GpuUsageStats)>, id: GpuIdentifier) -> (r: Option<usize>)
    ensures
        r matches Some(j) ==> j < map@.len() && map@[j as int].0 == id,
        r is None ==> forall|j: int| 0 <= j < map@.len() ==> map@[j].0 != id,
{
    let mut j: usize = 0;
    while j < map.len()
        invariant
            j <= map@.len(),
            forall|k: int| 0 <= k < j ==> map@[k].0 != id,
        decreases map.len() - j,
    {
        if map[j].0 == id {
            return Some(j);
        }
        j = j + 1;
    }
    None
}

impl NvidiaState {
    /// The readings of the last refresh.
    pub closed spec fn readings(self) -> Seq<NvidiaReading> {
        self.readings@
    }

    /// Replaces the readings by those of a new refresh.
    pub fn refresh(&mut self, readings: Vec<NvidiaReading>)
        ensures
            final(self).readings() == readings@,
    {
        self.readings = readings;
    }

    /// The counters of process `pid` on each NVIDIA GPU, by GPU; GPUs whose
    /// counters for it are invalid are left out.
    pub fn per_process_stats(&self, pid: i32) -> (r: Vec<(GpuIdentifier, GpuUsageStats)>)
        ensures
            distinct_keys(r@),
            stats_map_is(pairs_map(r@), nvidia_map(self.readings(), pid as u32)),
    {
        let ghost rs = self.readings@;
        let mut out: Vec<(GpuIdentifier, GpuUsageStats)> = Vec::new();
        let mut i: usize = 0;
        assert(pairs_map(out@) =~= Map::<GpuIdentifier, GpuUsageStats>::empty());
        assert(nvidia_map(rs.take(0), pid as u32) =~= Map::<GpuIdentifier, (u8, u8, u8, u64)>::empty());
        while i < self.readings.len()
            invariant
                i <= rs.len(),
                rs == self.readings@,
                distinct_keys(out@),
                stats_map_is(pairs_map(out@), nvidia_map(rs.take(i as int), pid as u32)),
            decreases self.readings.len() - i,
        {
            let reading = &self.readings[i];
            assert(rs.take(i + 1).drop_last() =~= rs.take(i as int));
            assert(rs.take(i + 1).last() == *reading);
            let ghost before = nvidia_map(rs.take(i as int), pid as u32);
            match stats_for_pid(pid, &reading.samples, &reading.processes) {
                Ok(st) => {
                    let id = GpuIdentifier::PciSlot(reading.slot);
                    let ghost v = nvidia_stats_of(reading.samples@, reading.processes@, pid as u32)->0;
                    let ghost old_map = pairs_map(out@);
                    match position_of(&out, id) {
                        Some(j) => {
                            proof {
                                lemma_pairs_map_update(out@, j as int, st);
                            }
                            out.set(j, (id, st));
                        },
                        None => {
                            proof {
                                lemma_push_new_key(out@, id, st);
                            }
                            out.push((id, st));
                        },
                    }
                    assert(pairs_map(out@) == old_map.insert(id, st));
                    assert(nvidia_map(rs.take(i + 1), pid as u32) == before.insert(id, v));
                    assert(pairs_map(out@).dom() =~= before.insert(id, v).dom());
                },
                Err(_) => {
                    assert(nvidia_map(rs.take(i + 1), pid as u32) == before);
                },
            }
            i = i + 1;
        }
        assert(rs.take(i as int) =~= rs);
        out
    }
}

impl Default for NvidiaState {
    /// No readings yet.
    fn default() -> (r: Self)
        ensures
            r.readings() == Seq::<NvidiaReading>::empty(),
    {
        NvidiaState { readings: Vec::new() }
    }
}

} // verus!
