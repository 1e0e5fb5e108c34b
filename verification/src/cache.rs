//! What is kept between scans of the processes: the fdinfos found not to be
//! GPU- or NPU-related, the link targets of fds and the last NVIDIA readings.

use std::collections::{HashMap, HashSet};

use vstd::prelude::*;

use crate::assoc::{distinct_keys, pairs_map};
use crate::gpu_usage::{GpuIdentifier, GpuUsageStats};
use crate::nvidia::{nvidia_map, stats_map_is, NvidiaReading, NvidiaState};

verus! {

broadcast use vstd::std_specs::hash::group_hash_axioms;

/// The hash key of the fd `fd` of process `pid`: the two numbers side by side.
pub open spec fn fd_key(pid: i32, fd: usize) -> u128 {
    ((pid as u32 as u128) << 64u128) | (fd as u64 as u128)
}

fn key_of(pid: i32, fd: usize) -> (k: u128)
    ensures
        k == fd_key(pid, fd),
{
    ((pid as u32 as u128) << 64u128) | (fd as u64 as u128)
}

/// Distinct fds have distinct keys.
pub proof fn lemma_fd_key_injective(p1: i32, f1: usize, p2: i32, f2: usize)
    ensures
        fd_key(p1, f1) == fd_key(p2, f2) ==> p1 == p2 && f1 == f2,
{
    assert(((p1 as u32 as u128) << 64u128) | (f1 as u64 as u128) == ((p2 as u32 as u128)
        << 64u128) | (f2 as u64 as u128) ==> p1 == p2 && f1 == f2) by (bit_vector);
}

/// The fds whose keys a set holds.
pub open spec fn set_model(s: Set<u128>) -> Set<(i32, usize)> {
    Set::new(|p: (i32, usize)| s.contains(fd_key(p.0, p.1)))
}

/// The link targets that a map holds, by fd.
pub open spec fn link_model(m: Map<u128, Vec<u8>>) -> Map<(i32, usize), Seq<u8>> {
    Map::new(
        |p: (i32, usize)| m.contains_key(fd_key(p.0, p.1)),
        |p: (i32, usize)| m[fd_key(p.0, p.1)]@,
    )
}

proof fn lemma_set_model_insert(s: Set<u128>, p: (i32, usize))
    ensures
        set_model(s.insert(fd_key(p.0, p.1))) == set_model(s).insert(p),
{
    assert forall|q: (i32, usize)|
        set_model(s.insert(fd_key(p.0, p.1))).contains(q) <==> set_model(s).insert(p).contains(
            q,
        ) by {
        lemma_fd_key_injective(q.0, q.1, p.0, p.1);
    }
    assert(set_model(s.insert(fd_key(p.0, p.1))) =~= set_model(s).insert(p));
}

proof fn lemma_set_model_remove(s: Set<u128>, p: (i32, usize))
    ensures
        set_model(s.remove(fd_key(p.0, p.1))) == set_model(s).remove(p),
{
    assert forall|q: (i32, usize)|
        set_model(s.remove(fd_key(p.0, p.1))).contains(q) <==> set_model(s).remove(p).contains(
            q,
        ) by {
        lemma_fd_key_injective(q.0, q.1, p.0, p.1);
    }
    assert(set_model(s.remove(fd_key(p.0, p.1))) =~= set_model(s).remove(p));
}

proof fn lemma_link_model_insert(m: Map<u128, Vec<u8>>, p: (i32, usize), v: Vec<u8>)
    ensures
        link_model(m.insert(fd_key(p.0, p.1), v)) == link_model(m).insert(p, v@),
{
    assert forall|q: (i32, usize)|
        #[trigger] link_model(m.insert(fd_key(p.0, p.1), v)).contains_key(q)
            <==> link_model(m).insert(p, v@).contains_key(q) by {
        lemma_fd_key_injective(q.0, q.1, p.0, p.1);
    }
    assert forall|q: (i32, usize)| #[trigger]
        link_model(m.insert(fd_key(p.0, p.1), v)).contains_key(q) implies link_model(
        m.insert(fd_key(p.0, p.1), v),
    )[q] == link_model(m).insert(p, v@)[q] by {
        lemma_fd_key_injective(q.0, q.1, p.0, p.1);
    }
    assert(link_model(m.insert(fd_key(p.0, p.1), v)) =~= link_model(m).insert(p, v@));
}

/// The fd `p` is in the set; never when there is no set.
pub open spec fn marked(s: Option<Set<(i32, usize)>>, p: (i32, usize)) -> bool {
    match s {
        Some(x) => x.contains(p),
        None => false,
    }
}

/// The set with `p` added; still no set when there is none.
pub open spec fn mark(s: Option<Set<(i32, usize)>>, p: (i32, usize)) -> Option<Set<(i32, usize)>> {
    match s {
        Some(x) => Some(x.insert(p)),
        None => None,
    }
}

/// The set without `p`; still no set when there is none.
pub open spec fn unmark(s: Option<Set<(i32, usize)>>, p: (i32, usize)) -> Option<
    Set<(i32, usize)>,
> {
    match s {
        Some(x) => Some(x.remove(p)),
        None => None,
    }
}

/// The cached link target of `p`, if any.
pub open spec fn link_of(l: Option<Map<(i32, usize), Seq<u8>>>, p: (i32, usize)) -> Option<
    Seq<u8>,
> {
    match l {
        Some(m) => if m.contains_key(p) {
            Some(m[p])
        } else {
            None
        },
        None => None,
    }
}

/// The links with `p` leading to `t`; still none when links are not cached.
pub open spec fn with_link(l: Option<Map<(i32, usize), Seq<u8>>>, p: (i32, usize), t: Seq<u8>) -> Option<
    Map<(i32, usize), Seq<u8>>,
> {
    match l {
        Some(m) => Some(m.insert(p, t)),
        None => None,
    }
}

/// The fdinfo caches and the last NVIDIA readings. Each of the two sets of
/// unrelated fds and the link cache may be switched off.
#[derive(Debug, Clone)]
pub struct ProcessDataCache {
    non_gpu_fdinfos: Option<HashSet<u128>>,
    non_npu_fdinfos: Option<HashSet<u128>>,
    symlink_cache: Option<HashMap<u128, Vec<u8>>>,
    nvidia_state: NvidiaState,
}

impl ProcessDataCache {
    /// The fds known not to be GPU-related; `None` when that is not cached.
    pub closed spec fn non_gpu(self) -> Option<Set<(i32, usize)>> {
        match self.non_gpu_fdinfos {
            Some(s) => Some(set_model(s@)),
            None => None,
        }
    }

    /// The fds known not to be NPU-related; `None` when that is not cached.
    pub closed spec fn non_npu(self) -> Option<Set<(i32, usize)>> {
        match self.non_npu_fdinfos {
            Some(s) => Some(set_model(s@)),
            None => None,
        }
    }

    /// The cached link targets of fds; `None` when they are not cached.
    pub closed spec fn links(self) -> Option<Map<(i32, usize), Seq<u8>>> {
        match self.symlink_cache {
            Some(m) => Some(link_model(m@)),
            None => None,
        }
    }

    /// The last NVIDIA readings.
    pub closed spec fn nvidia(self) -> NvidiaState {
        self.nvidia_state
    }

    /// Everything cached, nothing known yet.
    pub fn new() -> (r: Self)
        ensures
            r.non_gpu() == Some(Set::<(i32, usize)>::empty()),
            r.non_npu() == Some(Set::<(i32, usize)>::empty()),
            r.links() == Some(Map::<(i32, usize), Seq<u8>>::empty()),
            r.nvidia().readings() == Seq::<NvidiaReading>::empty(),
    {
        let r = ProcessDataCache {
            non_gpu_fdinfos: Some(HashSet::new()),
            non_npu_fdinfos: Some(HashSet::new()),
            symlink_cache: Some(HashMap::new()),
            nvidia_state: NvidiaState::default(),
        };
        assert(set_model(Set::<u128>::empty()) =~= Set::<(i32, usize)>::empty());
        assert(link_model(Map::<u128, Vec<u8>>::empty()) =~= Map::<(i32, usize), Seq<u8>>::empty());
        r
    }

    /// No fdinfo caching at all.
    pub fn new_no_fdinfo_cache() -> (r: Self)
        ensures
            r.non_gpu() is None,
            r.non_npu() is None,
            r.links() is None,
            r.nvidia().readings() == Seq::<NvidiaReading>::empty(),
    {
        ProcessDataCache {
            non_gpu_fdinfos: None,
            non_npu_fdinfos: None,
            symlink_cache: None,
            nvidia_state: NvidiaState::default(),
        }
    }

    /// The fd is known not to be GPU-related.
    pub fn non_gpu_fdinfos_contains(&self, pid: i32, id: usize) -> (r: bool)
        ensures
            r == marked(self.non_gpu(), (pid, id)),
    {
        match &self.non_gpu_fdinfos {
            Some(s) => s.contains(&key_of(pid, id)),
            None => false,
        }
    }

    /// Records that the fd is not GPU-related; `true` unless it was known
    /// already.
    pub fn non_gpu_fdinfos_insert(&mut self, pid: i32, id: usize) -> (r: bool)
        ensures
            r == !marked(old(self).non_gpu(), (pid, id)),
            final(self).non_gpu() == mark(old(self).non_gpu(), (pid, id)),
            final(self).non_npu() == old(self).non_npu(),
            final(self).links() == old(self).links(),
            final(self).nvidia() == old(self).nvidia(),
    {
        match &mut self.non_gpu_fdinfos {
            Some(s) => {
                proof {
                    lemma_set_model_insert(s@, (pid, id));
                }
                s.insert(key_of(pid, id))
            },
            None => true,
        }
    }

    /// Forgets that the fd is not GPU-related; `true` if it was known.
    pub fn non_gpu_fdinfos_remove(&mut self, pid: i32, id: usize) -> (r: bool)
        ensures
            r == marked(old(self).non_gpu(), (pid, id)),
            final(self).non_gpu() == unmark(old(self).non_gpu(), (pid, id)),
            final(self).non_npu() == old(self).non_npu(),
            final(self).links() == old(self).links(),
            final(self).nvidia() == old(self).nvidia(),
    {
        match &mut self.non_gpu_fdinfos {
            Some(s) => {
                proof {
                    lemma_set_model_remove(s@, (pid, id));
                }
                s.remove(&key_of(pid, id))
            },
            None => false,
        }
    }

    /// The fd is known not to be NPU-related.
    pub fn non_npu_fdinfos_contains(&self, pid: i32, id: usize) -> (r: bool)
        ensures
            r == marked(self.non_npu(), (pid, id)),
    {
        match &self.non_npu_fdinfos {
            Some(s) => s.contains(&key_of(pid, id)),
            None => false,
        }
    }

    /// Records that the fd is not NPU-related; `true` unless it was known
    /// already.
    pub fn non_npu_fdinfos_insert(&mut self, pid: i32, id: usize) -> (r: bool)
        ensures
            r == !marked(old(self).non_npu(), (pid, id)),
            final(self).non_npu() == mark(old(self).non_npu(), (pid, id)),
            final(self).non_gpu() == old(self).non_gpu(),
            final(self).links() == old(self).links(),
            final(self).nvidia() == old(self).nvidia(),
    {
        match &mut self.non_npu_fdinfos {
            Some(s) => {
                proof {
                    lemma_set_model_insert(s@, (pid, id));
                }
                s.insert(key_of(pid, id))
            },
            None => true,
        }
    }

    /// Forgets that the fd is not NPU-related; `true` if it was known.
    pub fn non_npu_fdinfos_remove(&mut self, pid: i32, id: usize) -> (r: bool)
        ensures
            r == marked(old(self).non_npu(), (pid, id)),
            final(self).non_npu() == unmark(old(self).non_npu(), (pid, id)),
            final(self).non_gpu() == old(self).non_gpu(),
            final(self).links() == old(self).links(),
            final(self).nvidia() == old(self).nvidia(),
    {
        match &mut self.non_npu_fdinfos {
            Some(s) => {
                proof {
                    lemma_set_model_remove(s@, (pid, id));
                }
                s.remove(&key_of(pid, id))
            },
            None => false,
        }
    }

    /// The cached link target of the fd.
    pub fn symlink_cache_get(&self, pid: i32, id: usize) -> (r: Option<&Vec<u8>>)
        ensures
            match link_of(self.links(), (pid, id)) {
                Some(t) => r matches Some(v) && v@ == t,
                None => r is None,
            },
    {
        match &self.symlink_cache {
            Some(m) => m.get(&key_of(pid, id)),
            None => None,
        }
    }

    /// Caches the link target of the fd; the target it replaces, if any.
    pub fn symlink_cache_insert(&mut self, pid: i32, id: usize, value: Vec<u8>) -> (r: Option<
        Vec<u8>,
    >)
        ensures
            match link_of(old(self).links(), (pid, id)) {
                Some(t) => r matches Some(v) && v@ == t,
                None => r is None,
            },
            final(self).links() == with_link(old(self).links(), (pid, id), value@),
            final(self).non_gpu() == old(self).non_gpu(),
            final(self).non_npu() == old(self).non_npu(),
            final(self).nvidia() == old(self).nvidia(),
    {
        match &mut self.symlink_cache {
            Some(m) => {
                proof {
                    lemma_link_model_insert(m@, (pid, id), value);
                }
                m.insert(key_of(pid, id), value)
            },
            None => None,
        }
    }

    /// Keeps the NVIDIA readings of a new refresh.
    pub fn nvidia_refresh(&mut self, readings: Vec<NvidiaReading>)
        ensures
            final(self).nvidia().readings() == readings@,
            final(self).non_gpu() == old(self).non_gpu(),
            final(self).non_npu() == old(self).non_npu(),
            final(self).links() == old(self).links(),
    {
        self.nvidia_state.refresh(readings);
    }

    /// The NVIDIA counters of process `pid`, by GPU.
    pub fn nvidia_get(&self, pid: i32) -> (r: Vec<(GpuIdentifier, GpuUsageStats)>)
        ensures
            distinct_keys(r@),
            stats_map_is(pairs_map(r@), nvidia_map(self.nvidia().readings(), pid as u32)),
    {
        self.nvidia_state.per_process_stats(pid)
    }
}

/// Marking an fd makes it marked where the set is kept, and leaves every
/// other fd as it was; unmarking it makes it unmarked.
pub proof fn lemma_mark_unmark(s: Option<Set<(i32, usize)>>, p: (i32, usize), q: (i32, usize))
    ensures
        marked(mark(s, p), p) == s is Some,
        !marked(unmark(s, p), p),
        q != p ==> marked(mark(s, p), q) == marked(s, q),
        q != p ==> marked(unmark(s, p), q) == marked(s, q),
{
}

/// Caching a link target makes it the fd's cached target where links are
/// kept, and leaves every other fd's target as it was.
pub proof fn lemma_link_read_back(
    l: Option<Map<(i32, usize), Seq<u8>>>,
    p: (i32, usize),
    q: (i32, usize),
    t: Seq<u8>,
)
    ensures
        link_of(with_link(l, p, t), p) == if l is Some {
            Some(t)
        } else {
            None::<Seq<u8>>
        },
        q != p ==> link_of(with_link(l, p, t), q) == link_of(l, q),
{
}

} // verus!
