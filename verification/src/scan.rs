//! The decisions of a scan of one process's fdinfos: which fds are looked at,
//! whose link target must be read, which fdinfo files are read, and what the
//! cache learns on the way. Reading links and files is left to the caller,
//! which hands each result back.

use vstd::prelude::*;
use vstd::string::StringSliceAdditionalSpecFns;

use crate::cache::{link_of, mark, marked, unmark, with_link, ProcessDataCache};
use crate::fdinfo::{fdinfo_entries, field_views, Fdinfo};
use crate::text::{chars_of, parse_unsigned_in, parse_unsigned_max};

verus! {

/// Where the handling of one fd stands.
#[derive(Debug, Clone, Copy, PartialEq, Eq, Structural)]
pub enum FdStage {
    /// Both caches mark the fd as unrelated: only a link to a DRM or
    /// accelerator device brings it back.
    Recheck,
    /// The fd is looked at: its link target is compared with those of the
    /// fds read before.
    Dedupe,
}

/// What to do next for one fd.
#[derive(Debug, Clone, Copy, PartialEq, Eq, Structural)]
pub enum FdAction {
    /// Read the target of the fd's link and hand it back, with this stage.
    ReadLink(FdStage),
    /// Leave the fd out.
    Skip,
    /// Read the fd's fdinfo file and hand its text back.
    ReadContent,
}

/// What a path is compared by: whether it starts at the root, whether it
/// starts with a `.` component, and its other components in order (empty and
/// `.` components left out), as `Path::components` gives them.
pub type PathComponents = (bool, bool, Seq<Seq<u8>>);

/// What a scan decides on: the cache's marks and links, and the link targets
/// (by their path components) of the fds whose fdinfo it has chosen to read.
pub struct ScanView {
    pub non_gpu: Option<Set<(i32, usize)>>,
    pub non_npu: Option<Set<(i32, usize)>>,
    pub links: Option<Map<(i32, usize), Seq<u8>>>,
    pub seen: Seq<PathComponents>,
}

/// The pieces of `t` between its `/` bytes (one more than there are `/`).
pub open spec fn split_on_slash(t: Seq<u8>) -> Seq<Seq<u8>>
    decreases t.len(),
{
    if t.len() == 0 {
        seq![Seq::<u8>::empty()]
    } else {
        let p = split_on_slash(t.drop_last());
        if t.last() == 47u8 {
            p.push(Seq::<u8>::empty())
        } else {
            p.update(p.len() - 1, p.last().push(t.last()))
        }
    }
}

/// A piece that is a component: neither empty nor `.`.
pub open spec fn is_component(piece: Seq<u8>) -> bool {
    piece.len() > 0 && piece != seq![46u8]
}

/// The pieces that are components, in order.
pub open spec fn components_of(pieces: Seq<Seq<u8>>) -> Seq<Seq<u8>>
    decreases pieces.len(),
{
    if pieces.len() == 0 {
        Seq::empty()
    } else {
        let k = components_of(pieces.drop_last());
        if is_component(pieces.last()) {
            k.push(pieces.last())
        } else {
            k
        }
    }
}

/// The path components of the link target `t`: two targets that differ only
/// in repeated `/`, `.` components after the first or a trailing `/` have the
/// same components, as two equal `PathBuf`s do.
pub open spec fn path_components(t: Seq<u8>) -> PathComponents {
    (
        t.len() > 0 && t[0] == 47u8,
        t == seq![46u8] || (t.len() >= 2 && t[0] == 46u8 && t[1] == 47u8),
        components_of(split_on_slash(t)),
    )
}

/// The view of a scan with link targets `seen` over `cache`.
pub open spec fn scan_view(cache: ProcessDataCache, seen: Seq<PathComponents>) -> ScanView {
    ScanView { non_gpu: cache.non_gpu(), non_npu: cache.non_npu(), links: cache.links(), seen }
}

/// `pat` occurs in `t` at position `i`.
pub open spec fn bytes_at(t: Seq<u8>, pat: Seq<u8>, i: int) -> bool {
    0 <= i && i + pat.len() <= t.len() && t.subrange(i, i + pat.len()) == pat
}

/// `pat` occurs in `t`.
pub open spec fn bytes_contain(t: Seq<u8>, pat: Seq<u8>) -> bool {
    exists|i: int| #[trigger] bytes_at(t, pat, i)
}

/// A link target that names a DRM or accelerator device.
pub open spec fn device_target(t: Seq<u8>) -> bool {
    bytes_contain(t, "/dev/dri/".spec_bytes()) || bytes_contain(t, "/dev/accel/".spec_bytes())
}

/// The stage an fd starts in.
pub open spec fn stage_of(v: ScanView, p: (i32, usize)) -> FdStage {
    if marked(v.non_gpu, p) && marked(v.non_npu, p) {
        FdStage::Recheck
    } else {
        FdStage::Dedupe
    }
}

/// An fd with link target `t` is read unless an fd read before has the same
/// target.
pub open spec fn dedupe(v: ScanView, t: Seq<u8>) -> (ScanView, FdAction) {
    if v.seen.contains(path_components(t)) {
        (v, FdAction::Skip)
    } else {
        (ScanView { seen: v.seen.push(path_components(t)), ..v }, FdAction::ReadContent)
    }
}

/// The step once the link target of fd `p` is known (`None`: it has none).
pub open spec fn on_target(v: ScanView, p: (i32, usize), stage: FdStage, target: Option<Seq<u8>>) -> (
    ScanView,
    FdAction,
) {
    match stage {
        FdStage::Recheck => match target {
            Some(t) => if device_target(t) {
                let v2 = ScanView { non_gpu: unmark(v.non_gpu, p), non_npu: unmark(v.non_npu, p), ..v };
                match link_of(v2.links, p) {
                    Some(t2) => dedupe(v2, t2),
                    None => (v2, FdAction::ReadLink(FdStage::Dedupe)),
                }
            } else {
                (v, FdAction::Skip)
            },
            None => (v, FdAction::Skip),
        },
        FdStage::Dedupe => match target {
            Some(t) => dedupe(v, t),
            None => (v, FdAction::ReadContent),
        },
    }
}

/// The first step for fd `p`: its cached link target, or a request to read it.
pub open spec fn on_begin(v: ScanView, p: (i32, usize)) -> (ScanView, FdAction) {
    match link_of(v.links, p) {
        Some(t) => on_target(v, p, stage_of(v, p), Some(t)),
        None => (v, FdAction::ReadLink(stage_of(v, p))),
    }
}

/// The step after the link target of fd `p` was read: it is cached, then used.
pub open spec fn on_link(v: ScanView, p: (i32, usize), stage: FdStage, target: Option<Seq<u8>>) -> (
    ScanView,
    FdAction,
) {
    let v1 = match target {
        Some(t) => ScanView { links: with_link(v.links, p, t), ..v },
        None => v,
    };
    on_target(v1, p, stage, target)
}

/// An fd whose fdinfo could not be read is marked as unrelated to both.
pub open spec fn on_unreadable(v: ScanView, p: (i32, usize)) -> ScanView {
    ScanView { non_gpu: mark(v.non_gpu, p), non_npu: mark(v.non_npu, p), ..v }
}

/// The view of an optional byte vector.
pub open spec fn opt_bytes(t: Option<Vec<u8>>) -> Option<Seq<u8>> {
    match t {
        Some(b) => Some(b@),
        None => None,
    }
}

/// `true` exactly when `pat` occurs in `hay`.
pub fn contains_bytes(hay: &[u8], pat: &[u8]) -> (r: bool)
    ensures
        r == bytes_contain(hay@, pat@),
{
    let n = hay.len();
    let m = pat.len();
    if m > n {
        assert(!bytes_contain(hay@, pat@)) by {
            if bytes_contain(hay@, pat@) {
                let k = choose|k: int| bytes_at(hay@, pat@, k);
            }
        }
        return false;
    }
    let mut i: usize = 0;
    while i <= n - m
        invariant
            n == hay@.len(),
            m == pat@.len(),
            m <= n,
            i <= n - m + 1,
            forall|k: int| 0 <= k < i ==> !#[trigger] bytes_at(hay@, pat@, k),
        decreases n - i,
    {
        let mut j: usize = 0;
        let mut same = true;
        while j < m
            invariant
                n == hay@.len(),
                m == pat@.len(),
                i + m <= n,
                j <= m,
                same == (forall|k: int| 0 <= k < j ==> hay@[i + k] == pat@[k]),
            decreases m - j,
        {
            if hay[i + j] != pat[j] {
                same = false;
            }
            j = j + 1;
        }
        if same {
            assert(hay@.subrange(i as int, i + m) =~= pat@);
            assert(bytes_at(hay@, pat@, i as int));
            return true;
        }
        assert(!bytes_at(hay@, pat@, i as int)) by {
            let k = choose|k: int| 0 <= k < m && hay@[i + k] != pat@[k];
            assert(hay@.subrange(i as int, i + m)[k] == hay@[i + k]);
        }
        i = i + 1;
    }
    assert(!bytes_contain(hay@, pat@)) by {
        if bytes_contain(hay@, pat@) {
            let k = choose|k: int| bytes_at(hay@, pat@, k);
            assert(k < i);
        }
    }
    false
}

/// The link target names a DRM or accelerator device.
pub fn is_device_target(t: &Vec<u8>) -> (r: bool)
    ensures
        r == device_target(t@),
{
    contains_bytes(t.as_slice(), "/dev/dri/".as_bytes()) || contains_bytes(
        t.as_slice(),
        "/dev/accel/".as_bytes(),
    )
}

fn same_bytes(a: &Vec<u8>, b: &Vec<u8>) -> (r: bool)
    ensures
        r == (a@ == b@),
{
    if a.len() != b.len() {
        return false;
    }
    let mut i: usize = 0;
    while i < a.len()
        invariant
            a@.len() == b@.len(),
            i <= a@.len(),
            forall|k: int| 0 <= k < i ==> a@[k] == b@[k],
        decreases a.len() - i,
    {
        if a[i] != b[i] {
            return false;
        }
        i = i + 1;
    }
    assert(a@ =~= b@);
    true
}

/// The path components of a link target, as compared.
pub struct PathKey {
    pub rooted: bool,
    pub leading_cur: bool,
    pub parts: Vec<Vec<u8>>,
}

/// What a path key stands for.
pub open spec fn key_view(k: PathKey) -> PathComponents {
    (k.rooted, k.leading_cur, k.parts@.map_values(|p: Vec<u8>| p@))
}

proof fn lemma_split_nonempty(t: Seq<u8>)
    ensures
        split_on_slash(t).len() >= 1,
    decreases t.len(),
{
    if t.len() > 0 {
        lemma_split_nonempty(t.drop_last());
    }
}

fn is_component_exec(piece: &Vec<u8>) -> (r: bool)
    ensures
        r == is_component(piece@),
{
    if piece.len() == 1 {
        assert(piece@ == seq![46u8] <==> piece@[0] == 46u8) by {
            if piece@[0] == 46u8 {
                assert(piece@ =~= seq![46u8]);
            }
        }
    }
    piece.len() > 0 && !(piece.len() == 1 && piece[0] == 46u8)
}

/// The path components of the link target `t`.
pub fn path_key_of(t: &Vec<u8>) -> (r: PathKey)
    ensures
        key_view(r) == path_components(t@),
{
    let n = t.len();
    let mut parts: Vec<Vec<u8>> = Vec::new();
    let mut cur: Vec<u8> = Vec::new();
    let mut i: usize = 0;
    assert(t@.take(0) =~= Seq::<u8>::empty());
    assert(split_on_slash(t@.take(0)).drop_last() =~= Seq::<Seq<u8>>::empty());
    while i < n
        invariant
            i <= n,
            n == t@.len(),
            split_on_slash(t@.take(i as int)).len() >= 1,
            split_on_slash(t@.take(i as int)).last() == cur@,
            parts@.map_values(|p: Vec<u8>| p@) == components_of(
                split_on_slash(t@.take(i as int)).drop_last(),
            ),
        decreases n - i,
    {
        let b = t[i];
        let ghost prev = split_on_slash(t@.take(i as int));
        assert(t@.take(i + 1).drop_last() =~= t@.take(i as int));
        assert(t@.take(i + 1).last() == b);
        let ghost before = parts@.map_values(|p: Vec<u8>| p@);
        if b == 47u8 {
            assert(split_on_slash(t@.take(i + 1)) == prev.push(Seq::<u8>::empty()));
            assert(split_on_slash(t@.take(i + 1)).drop_last() =~= prev);
            assert(prev.drop_last().push(prev.last()) =~= prev);
            if is_component_exec(&cur) {
                let piece = cur.clone();
                assert(piece@ == cur@);
                parts.push(piece);
                assert(parts@.map_values(|p: Vec<u8>| p@) =~= before.push(cur@));
            }
            cur = Vec::new();
            assert(cur@ =~= Seq::<u8>::empty());
        } else {
            let ghost next = prev.update(prev.len() - 1, prev.last().push(b));
            assert(split_on_slash(t@.take(i + 1)) == next);
            assert(next.drop_last() =~= prev.drop_last());
            cur.push(b);
        }
        i = i + 1;
    }
    assert(t@.take(n as int) =~= t@);
    proof {
        lemma_split_nonempty(t@);
        let segs = split_on_slash(t@);
        assert(segs.drop_last().push(segs.last()) =~= segs);
    }
    let ghost before = parts@.map_values(|p: Vec<u8>| p@);
    if is_component_exec(&cur) {
        parts.push(cur);
        assert(parts@.map_values(|p: Vec<u8>| p@) =~= before.push(split_on_slash(t@).last()));
    }
    let rooted = n > 0 && t[0] == 47u8;
    let leading_cur = (n == 1 && t[0] == 46u8) || (n >= 2 && t[0] == 46u8 && t[1] == 47u8);
    assert(leading_cur == (t@ == seq![46u8] || (t@.len() >= 2 && t@[0] == 46u8 && t@[1] == 47u8))) by {
        if n == 1 && t@[0] == 46u8 {
            assert(t@ =~= seq![46u8]);
        }
    }
    PathKey { rooted, leading_cur, parts }
}

fn same_key(a: &PathKey, b: &PathKey) -> (r: bool)
    ensures
        r == (key_view(*a) == key_view(*b)),
{
    if a.rooted != b.rooted || a.leading_cur != b.leading_cur || a.parts.len() != b.parts.len() {
        assert(key_view(*a).2.len() == a.parts@.len());
        return false;
    }
    let ghost pa = a.parts@.map_values(|p: Vec<u8>| p@);
    let ghost pb = b.parts@.map_values(|p: Vec<u8>| p@);
    let mut i: usize = 0;
    while i < a.parts.len()
        invariant
            i <= a.parts@.len(),
            a.parts@.len() == b.parts@.len(),
            pa == a.parts@.map_values(|p: Vec<u8>| p@),
            pb == b.parts@.map_values(|p: Vec<u8>| p@),
            forall|k: int| 0 <= k < i ==> pa[k] == pb[k],
        decreases a.parts.len() - i,
    {
        if !same_bytes(&a.parts[i], &b.parts[i]) {
            assert(pa[i as int] != pb[i as int]);
            return false;
        }
        i = i + 1;
    }
    assert(pa =~= pb);
    true
}

/// Two link targets name the same path: they have the same path components.
pub fn same_path(a: &Vec<u8>, b: &Vec<u8>) -> (r: bool)
    ensures
        r == (path_components(a@) == path_components(b@)),
{
    let ka = path_key_of(a);
    let kb = path_key_of(b);
    same_key(&ka, &kb)
}

/// The number of an fd from the name of its fdinfo file; 0 when the name is
/// not a number.
pub fn fd_number(name: &str) -> (r: usize)
    ensures
        r == match parse_unsigned_max(name@, usize::MAX as nat) {
            Some(v) => v as usize,
            None => 0,
        },
{
    let cs = chars_of(name);
    assert(cs@.subrange(0, cs@.len() as int) =~= name@);
    match parse_unsigned_in(&cs, 0, cs.len(), usize::MAX as u64) {
        Some(v) => v as usize,
        None => 0,
    }
}

/// The scan of one process's fdinfos.
pub struct FdScan {
    pid: i32,
    seen: Vec<PathKey>,
    fdinfos: Vec<Fdinfo>,
}

impl FdScan {
    /// The process scanned.
    pub closed spec fn pid(self) -> i32 {
        self.pid
    }

    /// The path components of the link targets of the fds whose fdinfo was
    /// chosen to be read.
    pub closed spec fn seen(self) -> Seq<PathComponents> {
        self.seen@.map_values(|k: PathKey| key_view(k))
    }

    /// The fdinfos read so far.
    pub closed spec fn fdinfos(self) -> Seq<Fdinfo> {
        self.fdinfos@
    }

    /// A scan of process `pid` that has seen nothing yet.
    pub fn new(pid: i32) -> (r: Self)
        ensures
            r.pid() == pid,
            r.seen() == Seq::<PathComponents>::empty(),
            r.fdinfos() == Seq::<Fdinfo>::empty(),
    {
        let r = FdScan { pid, seen: Vec::new(), fdinfos: Vec::new() };
        assert(r.seen() =~= Seq::<PathComponents>::empty());
        r
    }

    fn dedupe_exec(&mut self, cache: &ProcessDataCache, t: &Vec<u8>) -> (a: FdAction)
        ensures
            (scan_view(*cache, final(self).seen()), a) == dedupe(
                scan_view(*cache, old(self).seen()),
                t@,
            ),
            final(self).pid() == old(self).pid(),
            final(self).fdinfos() == old(self).fdinfos(),
    {
        let ghost seen = self.seen();
        let key = path_key_of(t);
        let ghost kv = path_components(t@);
        let mut i: usize = 0;
        while i < self.seen.len()
            invariant
                i <= self.seen@.len(),
                seen == self.seen(),
                seen == old(self).seen(),
                self.pid() == old(self).pid(),
                self.fdinfos() == old(self).fdinfos(),
                key_view(key) == kv,
                kv == path_components(t@),
                forall|k: int| 0 <= k < i ==> seen[k] != kv,
            decreases self.seen.len() - i,
        {
            if same_key(&self.seen[i], &key) {
                assert(seen.len() == self.seen@.len());
                assert(seen[i as int] == kv);
                assert(seen.contains(kv));
                return FdAction::Skip;
            }
            i = i + 1;
        }
        assert(!seen.contains(kv));
        self.seen.push(key);
        assert(self.seen() =~= seen.push(kv));
        FdAction::ReadContent
    }

    fn with_target(
        &mut self,
        cache: &mut ProcessDataCache,
        fd: usize,
        stage: FdStage,
        target: Option<&Vec<u8>>,
    ) -> (a: FdAction)
        ensures
            (scan_view(*final(cache), final(self).seen()), a) == on_target(
                scan_view(*old(cache), old(self).seen()),
                (old(self).pid, fd),
                stage,
                match target {
                    Some(t) => Some(t@),
                    None => None,
                },
            ),
            final(self).pid() == old(self).pid(),
            final(self).fdinfos() == old(self).fdinfos(),
            final(cache).nvidia() == old(cache).nvidia(),
    {
        let pid = self.pid;
        match stage {
            FdStage::Recheck => match target {
                Some(t) => {
                    if is_device_target(t) {
                        cache.non_gpu_fdinfos_remove(pid, fd);
                        cache.non_npu_fdinfos_remove(pid, fd);
                        match cache.symlink_cache_get(pid, fd) {
                            Some(t2) => {
                                let t2 = t2.clone();
                                self.dedupe_exec(cache, &t2)
                            },
                            None => FdAction::ReadLink(FdStage::Dedupe),
                        }
                    } else {
                        FdAction::Skip
                    }
                },
                None => FdAction::Skip,
            },
            FdStage::Dedupe => match target {
                Some(t) => self.dedupe_exec(cache, t),
                None => FdAction::ReadContent,
            },
        }
    }

    /// The first step for fd `fd`.
    pub fn begin(&mut self, cache: &mut ProcessDataCache, fd: usize) -> (a: FdAction)
        ensures
            (scan_view(*final(cache), final(self).seen()), a) == on_begin(
                scan_view(*old(cache), old(self).seen()),
                (old(self).pid(), fd),
            ),
            final(self).pid() == old(self).pid(),
            final(self).fdinfos() == old(self).fdinfos(),
            final(cache).nvidia() == old(cache).nvidia(),
    {
        let pid = self.pid;
        let stage = if cache.non_gpu_fdinfos_contains(pid, fd) && cache.non_npu_fdinfos_contains(
            pid,
            fd,
        ) {
            FdStage::Recheck
        } else {
            FdStage::Dedupe
        };
        match cache.symlink_cache_get(pid, fd) {
            Some(t) => {
                let t = t.clone();
                self.with_target(cache, fd, stage, Some(&t))
            },
            None => FdAction::ReadLink(stage),
        }
    }

    /// The step after the link of fd `fd` was read for `stage`: `target` is
    /// its target, or `None` when it could not be read.
    pub fn link_read(
        &mut self,
        cache: &mut ProcessDataCache,
        fd: usize,
        stage: FdStage,
        target: Option<Vec<u8>>,
    ) -> (a: FdAction)
        ensures
            (scan_view(*final(cache), final(self).seen()), a) == on_link(
                scan_view(*old(cache), old(self).seen()),
                (old(self).pid(), fd),
                stage,
                opt_bytes(target),
            ),
            final(self).pid() == old(self).pid(),
            final(self).fdinfos() == old(self).fdinfos(),
            final(cache).nvidia() == old(cache).nvidia(),
    {
        let pid = self.pid;
        match target {
            Some(t) => {
                cache.symlink_cache_insert(pid, fd, t.clone());
                self.with_target(cache, fd, stage, Some(&t))
            },
            None => self.with_target(cache, fd, stage, None),
        }
    }

    /// The step after the fdinfo file of fd `fd` was read: `content` is its
    /// text, or `None` when it could not be read.
    pub fn content_read(&mut self, cache: &mut ProcessDataCache, fd: usize, content: Option<String>)
        ensures
            final(self).pid() == old(self).pid(),
            final(self).seen() == old(self).seen(),
            final(cache).nvidia() == old(cache).nvidia(),
            match content {
                Some(c) => {
                    &&& scan_view(*final(cache), final(self).seen()) == scan_view(
                        *old(cache),
                        old(self).seen(),
                    )
                    &&& final(self).fdinfos().len() == old(self).fdinfos().len() + 1
                    &&& final(self).fdinfos().drop_last() == old(self).fdinfos()
                    &&& final(self).fdinfos().last().pid == old(self).pid()
                    &&& final(self).fdinfos().last().fd_num == fd
                    &&& field_views(final(self).fdinfos().last().fields@) == fdinfo_entries(c@)
                },
                None => {
                    &&& scan_view(*final(cache), final(self).seen()) == on_unreadable(
                        scan_view(*old(cache), old(self).seen()),
                        (old(self).pid(), fd),
                    )
                    &&& final(self).fdinfos() == old(self).fdinfos()
                },
            },
    {
        let pid = self.pid;
        match content {
            Some(c) => {
                let info = Fdinfo::parse(pid, fd, c.as_str());
                let ghost before = self.fdinfos@;
                self.fdinfos.push(info);
                assert(self.fdinfos@.drop_last() =~= before);
            },
            None => {
                cache.non_gpu_fdinfos_insert(pid, fd);
                cache.non_npu_fdinfos_insert(pid, fd);
            },
        }
    }

    /// The fdinfos read, in the order they were read.
    pub fn finish(self) -> (r: Vec<Fdinfo>)
        ensures
            r@ == self.fdinfos(),
    {
        self.fdinfos
    }
}

/// A scan chooses to read the fdinfo of at most one fd per path it links to:
/// every step keeps the paths of the fds chosen distinct.
pub proof fn lemma_steps_keep_targets_distinct(
    v: ScanView,
    p: (i32, usize),
    stage: FdStage,
    target: Option<Seq<u8>>,
)
    requires
        v.seen.no_duplicates(),
    ensures
        on_begin(v, p).0.seen.no_duplicates(),
        on_link(v, p, stage, target).0.seen.no_duplicates(),
        on_unreadable(v, p).seen == v.seen,
{
    assert forall|w: ScanView, t: Seq<u8>| w.seen.no_duplicates() implies #[trigger] dedupe(
        w,
        t,
    ).0.seen.no_duplicates() by {
        let c = path_components(t);
        if !w.seen.contains(c) {
            let s2 = w.seen.push(c);
            assert forall|i: int, j: int| 0 <= i < s2.len() && 0 <= j < s2.len() && i != j implies s2[i]
                != s2[j] by {
                if i < w.seen.len() && j < w.seen.len() {
                } else if i < w.seen.len() {
                    assert(s2[j] == c);
                    assert(w.seen[i] == s2[i]);
                } else {
                    assert(s2[i] == c);
                    assert(w.seen[j] == s2[j]);
                }
            }
        }
    }
}

/// An fd that both caches mark as unrelated is looked at again only when its
/// link names a DRM or accelerator device, and is then no longer marked.
pub proof fn lemma_recheck_needs_device(v: ScanView, p: (i32, usize), target: Option<Seq<u8>>)
    ensures
        on_target(v, p, FdStage::Recheck, target).1 != FdAction::Skip ==> {
            &&& target matches Some(t) && device_target(t)
            &&& !marked(on_target(v, p, FdStage::Recheck, target).0.non_gpu, p)
            &&& !marked(on_target(v, p, FdStage::Recheck, target).0.non_npu, p)
        },
{
}

/// An fd that is looked at is left out only when an fd read before links to
/// the same path.
pub proof fn lemma_dedupe_skips_only_repeats(v: ScanView, p: (i32, usize), target: Option<Seq<u8>>)
    ensures
        on_target(v, p, FdStage::Dedupe, target).1 == FdAction::Skip ==> (target matches Some(t)
            && v.seen.contains(path_components(t))),
        on_target(v, p, FdStage::Dedupe, target).1 != FdAction::Skip ==> on_target(
            v,
            p,
            FdStage::Dedupe,
            target,
        ).1 == FdAction::ReadContent,
{
}

/// An fdinfo file that could not be read marks its fd as unrelated to both
/// GPUs and NPUs, where these are cached.
pub proof fn lemma_unreadable_is_marked(v: ScanView, p: (i32, usize))
    ensures
        marked(on_unreadable(v, p).non_gpu, p) == v.non_gpu is Some,
        marked(on_unreadable(v, p).non_npu, p) == v.non_npu is Some,
{
}

} // verus!
