//! The cache manager: the memory cache of decoded audio, the disk cache index,
//! and what a load needs to know from them.

use crate::audio::DecodedBuffer;
use crate::cache::disk::{
    files_dir_of, spec_cache_filename, temp_file_name, total_file_bytes, CacheEntry,
    CacheMetadata, DiskCache,
};
use crate::cache::memory::{
    flags_of, has_key, headroom, key_index, observed, stored, total_bytes, touched, without_key,
    MemoryCache,
};
use crate::cache::probe::{FileStat, ProbeCache};
use crate::cache::strategy::Probe;
use crate::config::{is_url, is_url_path, FreshnessMode, MemoryCap, ResamplerQuality};
use crate::keyed::KeyedVec;
use std::sync::Arc;
use vstd::prelude::*;

verus! {

/// Cache size statistics.
#[derive(Debug, Clone)]
pub struct CacheStats {
    pub entry_count: usize,
    pub size_bytes: u64,
}

/// The identity of a load's source file when the load started: its size and,
/// when it could be read, its modification time. A finished load is
/// published only if the file is still the same.
pub struct LoadGeneration {
    pub path: String,
    pub mtime: Option<i128>,
    pub size: u64,
}

impl LoadGeneration {
    /// The identity of the file at `path` from what the file system said of
    /// it; none when nothing could be read.
    pub fn capture(path: &str, stat: Option<FileStat>) -> (r: Option<Self>)
        ensures
            match stat {
                Some(s) => r matches Some(g) && g.path@ == path@ && g.mtime == s.modified && g.size
                    == s.len,
                None => r is None,
            },
    {
        match stat {
            Some(s) => Some(LoadGeneration { path: path.to_owned(), mtime: s.modified, size: s.len }),
            None => None,
        }
    }

    /// Whether the file, as the file system now describes it (none when it
    /// is gone), is still the one loaded: the same size, and the same
    /// modification time when one was recorded. A vanished file is stale.
    pub fn still_current(&self, now: Option<FileStat>) -> (r: bool)
        ensures
            r == match now {
                Some(s) => s.len == self.size && (self.mtime is None || s.modified == self.mtime),
                None => false,
            },
    {
        match now {
            Some(s) => s.len == self.size && (self.mtime.is_none() || s.modified == self.mtime),
            None => false,
        }
    }
}

/// Disk-cache metadata captured when a streaming download starts, recorded
/// once the download completed and its file was finalized.
pub struct PendingDiskWrite {
    pub cache_filename: String,
    pub final_path: String,
    pub etag: Option<String>,
    pub last_modified: Option<String>,
    pub content_type: Option<String>,
}

/// A streaming load in progress: the key it fills, the identity of its
/// source file when it started (none for a network download), and the
/// disk-cache entry to record once it completes. The buffer it fills is
/// shared with the decoder and stays with the caller.
pub struct ActiveLoad {
    pub path: String,
    pub generation: Option<LoadGeneration>,
    pub pending_disk_write: Option<PendingDiskWrite>,
}

/// How a streaming load's buffer ended.
pub enum LoadEnd {
    Failed,
    Complete(Arc<DecodedBuffer>),
}

/// What became of a finished load.
#[derive(Clone, Copy, Debug, PartialEq, Eq, Structural)]
pub enum LoadFate {
    /// It failed and was dropped, so a later play starts afresh.
    Dropped,
    /// Its source file changed while it ran; it was not published.
    Stale,
    /// Its audio was offered to the memory cache.
    Promoted,
}

/// Whether a load's source file is still the one it started from (see
/// [`LoadGeneration::still_current`]).
pub open spec fn still_same(g: LoadGeneration, now: Option<FileStat>) -> bool {
    match now {
        Some(s) => s.len == g.size && (g.mtime is None || s.modified == g.mtime),
        None => false,
    }
}

/// What becomes of a finished load: a failed one is dropped, one whose
/// source changed meanwhile is stale, any other is promoted.
pub open spec fn spec_fate(generation: Option<LoadGeneration>, end: LoadEnd, now: Option<FileStat>) -> LoadFate {
    match end {
        LoadEnd::Failed => LoadFate::Dropped,
        LoadEnd::Complete(_) => match generation {
            Some(g) => if still_same(g, now) {
                LoadFate::Promoted
            } else {
                LoadFate::Stale
            },
            None => LoadFate::Promoted,
        },
    }
}

/// A load is never published from a source file that changed while it ran:
/// a promoted load completed, and either had no file identity (a network
/// download) or its source file is still the one it started from.
pub proof fn law_stale_loads_are_never_published(
    generation: Option<LoadGeneration>,
    end: LoadEnd,
    now: Option<FileStat>,
)
    ensures
        spec_fate(generation, end, now) == LoadFate::Promoted ==> {
            &&& end is Complete
            &&& generation matches Some(g) ==> still_same(g, now)
        },
{
}

/// The disk-cache entry a promoted download records: the captured metadata,
/// the written file's length, and the validation time.
pub open spec fn pending_entry(w: PendingDiskWrite, len: u64, validated_at: String) -> CacheEntry {
    CacheEntry {
        local_file: w.cache_filename,
        etag: w.etag,
        last_modified: w.last_modified,
        last_validated: validated_at,
        file_size: len,
        content_type: w.content_type,
    }
}

/// Coordinates the memory and disk caches.
pub struct CacheManager {
    memory_cache: MemoryCache,
    /// `None` when the disk cache is disabled.
    disk_cache: Option<DiskCache>,
    resampler_quality: ResamplerQuality,
    /// Local-path allow-list; empty allows every path.
    allowed_directories: Vec<String>,
    /// Revalidate a disk-cached HTTP entry once it is older than this many seconds.
    revalidate_after_seconds: u64,
    /// Length and modification time of each local file when it was decoded, so
    /// a later load can cheaply detect an edit and decode it again.
    local_stats: KeyedVec<(i128, u64)>,
    /// Header probes of local files, valid while the file is unchanged.
    probe_cache: ProbeCache,
    /// When each URL was last checked against its server (monotonic
    /// milliseconds), so a dead server is asked at most once per interval
    /// rather than once per play.
    revalidation_attempts: KeyedVec<u64>,
    /// The streaming loads in progress, by the key they fill.
    active_loads: KeyedVec<ActiveLoad>,
}

impl CacheManager {
    /// Well-formedness of every part.
    pub closed spec fn wf(&self) -> bool {
        &&& self.memory_cache.wf()
        &&& (self.disk_cache matches Some(d) ==> d.wf())
        &&& self.local_stats.wf()
        &&& self.probe_cache.wf()
        &&& self.revalidation_attempts.wf()
        &&& self.active_loads.wf()
        &&& forall|k: Seq<char>| #[trigger] self.active_loads@.contains_key(k) ==> self.active_loads@[k].path@ == k
    }

    /// The streaming loads in progress, by the key each fills.
    pub closed spec fn loads(&self) -> Map<Seq<char>, ActiveLoad> {
        self.active_loads@
    }

    /// When each URL was last checked against its server (monotonic milliseconds).
    pub closed spec fn attempts(&self) -> Map<Seq<char>, u64> {
        self.revalidation_attempts@
    }

    /// The memory cache.
    pub closed spec fn memory(&self) -> MemoryCache {
        self.memory_cache
    }

    /// The disk cache, if enabled.
    pub closed spec fn disk(&self) -> Option<DiskCache> {
        self.disk_cache
    }

    /// The recorded length and modification time of each decoded local file.
    pub closed spec fn local_stats(&self) -> Map<Seq<char>, (i128, u64)> {
        self.local_stats@
    }

    /// The resampler quality loads decode with.
    pub closed spec fn quality(&self) -> ResamplerQuality {
        self.resampler_quality
    }

    /// The local-path allow-list.
    pub closed spec fn allowed(&self) -> Seq<String> {
        self.allowed_directories@
    }

    /// The revalidation interval in seconds.
    pub closed spec fn revalidate_after(&self) -> u64 {
        self.revalidate_after_seconds
    }

    /// The probe cache.
    pub closed spec fn probes(&self) -> ProbeCache {
        self.probe_cache
    }

    /// A cache manager over the given disk cache (or none), with an already
    /// resolved memory cap.
    pub fn with_disk_cache(
        disk_cache: Option<DiskCache>,
        resampler_quality: ResamplerQuality,
        memory_cap: MemoryCap,
        allowed_directories: Vec<String>,
        revalidate_after_seconds: u64,
    ) -> (m: Self)
        requires
            disk_cache matches Some(d) ==> d.wf(),
        ensures
            m.wf(),
            m.memory().cap() == crate::cache::memory::cap_bytes(memory_cap),
            m.memory()@.len() == 0,
            m.disk() == disk_cache,
            m.quality() == resampler_quality,
            m.allowed() == allowed_directories@,
            m.revalidate_after() == revalidate_after_seconds,
            m.local_stats() == Map::<Seq<char>, (i128, u64)>::empty(),
            m.probes()@ == Map::<Seq<char>, crate::cache::probe::CachedProbe>::empty(),
            m.attempts() == Map::<Seq<char>, u64>::empty(),
            m.loads() == Map::<Seq<char>, ActiveLoad>::empty(),
    {
        CacheManager {
            memory_cache: MemoryCache::with_cap(memory_cap),
            disk_cache,
            resampler_quality,
            allowed_directories,
            revalidate_after_seconds,
            local_stats: KeyedVec::new(),
            probe_cache: ProbeCache::new(),
            revalidation_attempts: KeyedVec::new(),
            active_loads: KeyedVec::new(),
        }
    }

    /// A cache manager with a disk cache and an already resolved memory cap
    /// (the production path: the cap is resolved from the configuration and
    /// the machine's memory at startup).
    pub fn with_resolved_cap(
        disk_cache: DiskCache,
        resampler_quality: ResamplerQuality,
        memory_cap: MemoryCap,
        allowed_directories: Vec<String>,
        revalidate_after_seconds: u64,
    ) -> (m: Self)
        requires
            disk_cache.wf(),
        ensures
            m.wf(),
            m.memory().cap() == crate::cache::memory::cap_bytes(memory_cap),
            m.memory()@.len() == 0,
            m.disk() == Some(disk_cache),
            m.quality() == resampler_quality,
            m.allowed() == allowed_directories@,
            m.revalidate_after() == revalidate_after_seconds,
            m.local_stats() == Map::<Seq<char>, (i128, u64)>::empty(),
            m.probes()@ == Map::<Seq<char>, crate::cache::probe::CachedProbe>::empty(),
            m.attempts() == Map::<Seq<char>, u64>::empty(),
            m.loads() == Map::<Seq<char>, ActiveLoad>::empty(),
    {
        Self::with_disk_cache(
            Some(disk_cache),
            resampler_quality,
            memory_cap,
            allowed_directories,
            revalidate_after_seconds,
        )
    }

    /// A cache manager with a disk cache and a memory limit in megabytes, where
    /// `0` means unlimited.
    pub fn with_options(
        disk_cache: DiskCache,
        resampler_quality: ResamplerQuality,
        max_memory_mb: u32,
        allowed_directories: Vec<String>,
        revalidate_after_seconds: u64,
    ) -> (m: Self)
        requires
            disk_cache.wf(),
            max_memory_mb as int * 1024 * 1024 <= usize::MAX,
        ensures
            m.wf(),
            m.memory().cap() == (if max_memory_mb == 0 {
                None
            } else {
                Some((max_memory_mb as int * 1024 * 1024) as usize)
            }),
            m.memory()@.len() == 0,
            m.disk() == Some(disk_cache),
            m.quality() == resampler_quality,
            m.allowed() == allowed_directories@,
            m.revalidate_after() == revalidate_after_seconds,
            m.local_stats() == Map::<Seq<char>, (i128, u64)>::empty(),
            m.probes()@ == Map::<Seq<char>, crate::cache::probe::CachedProbe>::empty(),
            m.attempts() == Map::<Seq<char>, u64>::empty(),
            m.loads() == Map::<Seq<char>, ActiveLoad>::empty(),
    {
        let cap = if max_memory_mb == 0 {
            MemoryCap::Unlimited
        } else {
            MemoryCap::Bytes((max_memory_mb as usize) * 1024 * 1024)
        };
        Self::with_resolved_cap(
            disk_cache,
            resampler_quality,
            cap,
            allowed_directories,
            revalidate_after_seconds,
        )
    }

    /// A cache manager with the given resampler quality, no memory limit, no
    /// allow-list, and a five-minute revalidation interval.
    pub fn with_quality(disk_cache: DiskCache, resampler_quality: ResamplerQuality) -> (m: Self)
        requires
            disk_cache.wf(),
        ensures
            m.wf(),
            m.memory().cap() == None::<usize>,
            m.memory()@.len() == 0,
            m.disk() == Some(disk_cache),
            m.quality() == resampler_quality,
            m.allowed().len() == 0,
            m.revalidate_after() == 300,
            m.local_stats() == Map::<Seq<char>, (i128, u64)>::empty(),
            m.probes()@ == Map::<Seq<char>, crate::cache::probe::CachedProbe>::empty(),
            m.attempts() == Map::<Seq<char>, u64>::empty(),
            m.loads() == Map::<Seq<char>, ActiveLoad>::empty(),
    {
        Self::with_options(disk_cache, resampler_quality, 0, Vec::new(), 300)
    }

    /// A cache manager with the default (fast) resampler quality and no memory
    /// limit.
    pub fn new(disk_cache: DiskCache) -> (m: Self)
        requires
            disk_cache.wf(),
        ensures
            m.wf(),
            m.memory().cap() == None::<usize>,
            m.memory()@.len() == 0,
            m.disk() == Some(disk_cache),
            m.quality() == ResamplerQuality::Fast,
            m.allowed().len() == 0,
            m.revalidate_after() == 300,
            m.local_stats() == Map::<Seq<char>, (i128, u64)>::empty(),
            m.probes()@ == Map::<Seq<char>, crate::cache::probe::CachedProbe>::empty(),
            m.attempts() == Map::<Seq<char>, u64>::empty(),
            m.loads() == Map::<Seq<char>, ActiveLoad>::empty(),
    {
        Self::with_quality(disk_cache, ResamplerQuality::default())
    }

    /// Bytes of new decoded data the memory cache could accept right now
    /// (after evicting what can be evicted).
    pub fn memory_headroom(&self) -> (r: usize)
        requires
            self.wf(),
        ensures
            exists|c: Seq<usize>|
                #![trigger headroom(self.memory()@, flags_of(c), self.memory().cap())]
                observed(c, self.memory()@) && r == headroom(
                    self.memory()@,
                    flags_of(c),
                    self.memory().cap(),
                ),
            self.memory().cap() is None ==> r == usize::MAX,
            self.memory().cap() matches Some(max) ==> r <= max,
    {
        self.memory_cache.fit_headroom()
    }

    /// The hard memory cap in bytes, or `None` if unlimited.
    pub fn memory_cap(&self) -> (r: Option<usize>)
        ensures
            r == self.memory().cap(),
    {
        self.memory_cache.max_size_bytes()
    }

    /// Whether `file_path` is resident in the memory cache (recency unchanged).
    pub fn is_resident(&self, file_path: &str) -> (r: bool)
        requires
            self.wf(),
        ensures
            r == has_key(self.memory()@, file_path@),
    {
        self.memory_cache.contains(file_path)
    }

    /// Whether `key` is resident in the memory cache.
    pub fn is_in_memory_cache(&self, key: &str) -> (r: bool)
        requires
            self.wf(),
        ensures
            r == has_key(self.memory()@, key@),
    {
        self.memory_cache.contains(key)
    }

    /// Whether `file_path` is cached in memory or on disk. `on_disk_len` is the
    /// length of its disk-cache file now (`None` when missing); see
    /// [`DiskCache::is_cached`].
    pub fn is_cached(&self, file_path: &str, on_disk_len: Option<u64>) -> (r: bool)
        requires
            self.wf(),
        ensures
            r == (has_key(self.memory()@, file_path@) || ((self.disk() matches Some(d)
                && d.index().contains_key(file_path@) && on_disk_len == Some(
                d.index()[file_path@].file_size,
            )))),
    {
        if self.memory_cache.contains(file_path) {
            return true;
        }
        match &self.disk_cache {
            Some(disk) => disk.is_cached(file_path, on_disk_len),
            None => false,
        }
    }

    /// Temp and final disk paths for teeing a cacheable windowed download, or
    /// `None` when the disk cache is off.
    pub fn windowed_persist_paths(&self, url: &str, seq: u64) -> (r: Option<(String, String)>)
        ensures
            r is Some <==> self.disk() is Some,
            r matches Some(p) ==> p.0@ == crate::text::join_path(
                files_dir_of(self.disk().unwrap().dir()),
                temp_file_name(url, seq),
            ) && p.1@ == crate::text::join_path(
                files_dir_of(self.disk().unwrap().dir()),
                spec_cache_filename(url),
            ),
    {
        match &self.disk_cache {
            Some(disk) => Some(disk.windowed_persist_paths(url, seq)),
            None => None,
        }
    }

    /// Register a windowed download that was teed to disk as a cache entry,
    /// validated at `validated_at`; nothing happens when the disk cache is off.
    pub fn record_streamed_download(
        &mut self,
        url: &str,
        file_size: u64,
        etag: Option<String>,
        last_modified: Option<String>,
        content_type: Option<String>,
        validated_at: String,
    )
        requires
            old(self).wf(),
        ensures
            final(self).wf(),
            final(self).loads() == old(self).loads(),
            final(self).memory() == old(self).memory(),
            final(self).local_stats() == old(self).local_stats(),
            final(self).probes() == old(self).probes(),
            final(self).attempts() == old(self).attempts(),
            final(self).disk() is Some <==> old(self).disk() is Some,
            final(self).disk() matches Some(d) ==> {
                let o = old(self).disk().unwrap();
                &&& d.dir() == o.dir()
                &&& d.failures() == o.failures()
                &&& d.index()[url@].local_file@ == spec_cache_filename(url)
                &&& d.index() == o.index().insert(
                    url@,
                    CacheEntry {
                        local_file: d.index()[url@].local_file,
                        etag,
                        last_modified,
                        last_validated: validated_at,
                        file_size,
                        content_type,
                    },
                )
            },
    {
        match &mut self.disk_cache {
            Some(disk) => {
                disk.record_streamed_download(
                    url,
                    file_size,
                    etag,
                    last_modified,
                    content_type,
                    validated_at,
                );
            },
            None => {},
        }
    }

    /// Store a decoded buffer in the memory cache (see [`MemoryCache::put`]).
    pub fn store_decoded(&mut self, key: String, buffer: Arc<DecodedBuffer>)
        requires
            old(self).wf(),
            buffer.data@.len() * 4 <= usize::MAX,
            old(self).memory().cap() is None ==> total_bytes(without_key(old(self).memory()@, key@))
                + buffer.spec_size_bytes() <= usize::MAX,
        ensures
            final(self).wf(),
            final(self).loads() == old(self).loads(),
            final(self).local_stats() == old(self).local_stats(),
            final(self).probes() == old(self).probes(),
            final(self).attempts() == old(self).attempts(),
            final(self).disk() == old(self).disk(),
            final(self).memory().cap() == old(self).memory().cap(),
            stored(old(self).memory()@, old(self).memory().cap(), key, buffer, final(self).memory()@),
    {
        self.memory_cache.put(key, buffer);
    }

    /// Register a streaming load that has started, under the key it fills
    /// (replacing any load registered there).
    pub fn start_load(&mut self, load: ActiveLoad)
        requires
            old(self).wf(),
        ensures
            final(self).wf(),
            final(self).loads() == old(self).loads().insert(load.path@, load),
            final(self).memory() == old(self).memory(),
            final(self).disk() == old(self).disk(),
            final(self).local_stats() == old(self).local_stats(),
            final(self).probes() == old(self).probes(),
            final(self).attempts() == old(self).attempts(),
    {
        let key = load.path.clone();
        self.active_loads.insert(key, load);
    }

    /// Whether `file_path` is being loaded: a load of it is registered and its
    /// buffer, as the caller reads it, has neither completed nor failed.
    pub fn is_loading(&self, file_path: &str, buffer_ended: bool) -> (r: bool)
        requires
            self.wf(),
        ensures
            r == (self.loads().contains_key(file_path@) && !buffer_ended),
    {
        self.active_loads.contains_key(file_path) && !buffer_ended
    }

    /// How far the load of `file_path` has come: the frames its buffer holds
    /// and the total it expects, as the caller reads them from the buffer;
    /// none when no load of it is registered.
    pub fn loading_progress(&self, file_path: &str, frames: usize, total: Option<usize>) -> (r: Option<
        (usize, Option<usize>),
    >)
        requires
            self.wf(),
        ensures
            r == (if self.loads().contains_key(file_path@) {
                Some((frames, total))
            } else {
                None::<(usize, Option<usize>)>
            }),
    {
        if self.active_loads.contains_key(file_path) {
            Some((frames, total))
        } else {
            None
        }
    }

    /// Take the load registered under `file_path` out of the table and fold
    /// it into the caches (see [`CacheManager::fold_finished_load`]); none,
    /// and nothing changed, when no load of it is registered.
    pub fn finish_load(
        &mut self,
        file_path: &str,
        end: LoadEnd,
        source_now: Option<FileStat>,
        written_len: Option<u64>,
        validated_at: String,
    ) -> (r: Option<LoadFate>)
        requires
            old(self).wf(),
            end matches LoadEnd::Complete(b) ==> {
                &&& b.data@.len() * 4 <= usize::MAX
                &&& old(self).memory().cap() is None ==> total_bytes(
                    without_key(old(self).memory()@, file_path@),
                ) + b.spec_size_bytes() <= usize::MAX
            },
        ensures
            final(self).wf(),
            final(self).local_stats() == old(self).local_stats(),
            final(self).probes() == old(self).probes(),
            final(self).attempts() == old(self).attempts(),
            r is None <==> !old(self).loads().contains_key(file_path@),
            r is None ==> *final(self) == *old(self),
            r is Some ==> final(self).loads() == old(self).loads().remove(file_path@),
            final(self).memory().cap() == old(self).memory().cap(),
            r matches Some(fate) ==> {
                let l = old(self).loads()[file_path@];
                &&& l.path@ == file_path@
                &&& fate == spec_fate(l.generation, end, source_now)
                &&& fate != LoadFate::Promoted ==> final(self).memory() == old(self).memory()
                    && final(self).disk() == old(self).disk()
                &&& fate == LoadFate::Promoted ==> (end matches LoadEnd::Complete(b) && stored(
                    old(self).memory()@,
                    old(self).memory().cap(),
                    l.path,
                    b,
                    final(self).memory()@,
                ))
                &&& fate == LoadFate::Promoted ==> match (
                    l.pending_disk_write,
                    old(self).disk(),
                    written_len,
                ) {
                    (Some(w), Some(d), Some(n)) => final(self).disk() matches Some(f) && f.index()
                        == d.index().insert(file_path@, pending_entry(w, n, validated_at))
                        && f.dir() == d.dir() && f.failures() == d.failures(),
                    _ => final(self).disk() == old(self).disk(),
                }
            },
    {
        if !self.active_loads.contains_key(file_path) {
            return None;
        }
        let load = match self.active_loads.remove(file_path) {
            Some(l) => l,
            None => return None,
        };
        proof {
            assert(load.path@ == file_path@);
        }
        Some(self.fold_finished_load(load, end, source_now, written_len, validated_at))
    }

    /// Fold a finished streaming load into the caches. A failed load is
    /// dropped, so a later play starts afresh; a load whose source file changed
    /// while it ran (`source_now` is what the file system says of it now) is
    /// never published. Otherwise its audio is stored in the memory cache and,
    /// where the download was written for the disk cache and the written
    /// file's length could be read (`written_len`), its index entry is
    /// recorded as validated at `validated_at`.
    pub fn fold_finished_load(
        &mut self,
        load: ActiveLoad,
        end: LoadEnd,
        source_now: Option<FileStat>,
        written_len: Option<u64>,
        validated_at: String,
    ) -> (fate: LoadFate)
        requires
            old(self).wf(),
            end matches LoadEnd::Complete(b) ==> {
                &&& b.data@.len() * 4 <= usize::MAX
                &&& old(self).memory().cap() is None ==> total_bytes(
                    without_key(old(self).memory()@, load.path@),
                ) + b.spec_size_bytes() <= usize::MAX
            },
        ensures
            final(self).wf(),
            final(self).local_stats() == old(self).local_stats(),
            final(self).probes() == old(self).probes(),
            final(self).attempts() == old(self).attempts(),
            fate == spec_fate(load.generation, end, source_now),
            fate != LoadFate::Promoted ==> *final(self) == *old(self),
            final(self).loads() == old(self).loads(),
            final(self).memory().cap() == old(self).memory().cap(),
            fate == LoadFate::Promoted ==> (end matches LoadEnd::Complete(b) && stored(
                old(self).memory()@,
                old(self).memory().cap(),
                load.path,
                b,
                final(self).memory()@,
            )),
            fate == LoadFate::Promoted ==> match (load.pending_disk_write, old(self).disk(), written_len) {
                (Some(w), Some(d), Some(n)) => final(self).disk() matches Some(f) && f.index()
                    == d.index().insert(load.path@, pending_entry(w, n, validated_at)) && f.dir()
                    == d.dir() && f.failures() == d.failures(),
                _ => final(self).disk() == old(self).disk(),
            },
    {
        let buffer = match end {
            LoadEnd::Failed => return LoadFate::Dropped,
            LoadEnd::Complete(b) => b,
        };
        match &load.generation {
            Some(g) => {
                if !g.still_current(source_now) {
                    return LoadFate::Stale;
                }
            },
            None => {},
        }
        let key = load.path.clone();
        self.memory_cache.put(key, buffer);
        match (load.pending_disk_write, &mut self.disk_cache, written_len) {
            (Some(w), Some(disk), Some(n)) => {
                let entry = CacheEntry {
                    local_file: w.cache_filename,
                    etag: w.etag,
                    last_modified: w.last_modified,
                    last_validated: validated_at,
                    file_size: n,
                    content_type: w.content_type,
                };
                disk.put_entry(load.path, entry);
            },
            _ => {},
        }
        LoadFate::Promoted
    }

    /// A memory-cached decoded buffer, refreshing its recency, without starting
    /// any load.
    pub fn get_cached(&mut self, key: &str) -> (r: Option<Arc<DecodedBuffer>>)
        requires
            old(self).wf(),
        ensures
            final(self).wf(),
            final(self).disk() == old(self).disk(),
            final(self).local_stats() == old(self).local_stats(),
            final(self).probes() == old(self).probes(),
            final(self).attempts() == old(self).attempts(),
            final(self).loads() == old(self).loads(),
            final(self).quality() == old(self).quality(),
            final(self).allowed() == old(self).allowed(),
            final(self).revalidate_after() == old(self).revalidate_after(),
            final(self).memory().cap() == old(self).memory().cap(),
            r is Some <==> has_key(old(self).memory()@, key@),
            r matches Some(b) ==> b == old(self).memory()@[key_index(
                old(self).memory()@,
                key@,
            )].buffer && final(self).memory()@ == touched(
                old(self).memory()@,
                key_index(old(self).memory()@, key@),
            ),
            r is None ==> final(self).memory()@ == old(self).memory()@,
    {
        self.memory_cache.get(key)
    }

    /// Clear both caches' contents (the disk files are deleted by the caller).
    pub fn clear_all(&mut self)
        requires
            old(self).wf(),
        ensures
            final(self).wf(),
            final(self).memory()@.len() == 0,
            final(self).memory().cap() == old(self).memory().cap(),
            final(self).disk() is Some <==> old(self).disk() is Some,
            final(self).disk() matches Some(d) ==> d.index() == Map::<Seq<char>, CacheEntry>::empty(),
            final(self).loads() == old(self).loads(),
            final(self).local_stats() == old(self).local_stats(),
            final(self).probes() == old(self).probes(),
            final(self).attempts() == old(self).attempts(),
    {
        self.memory_cache.clear();
        match &mut self.disk_cache {
            Some(disk) => disk.clear_all(),
            None => {},
        }
    }

    /// Invalidate `file_path` in both caches: its decoded copy and recorded
    /// file identity are dropped, an in-flight load of it is abandoned (so its
    /// completion never publishes the stale content; a voice already playing
    /// it keeps its own reference), its last revalidation attempt is
    /// forgotten, and its disk entry is taken out and returned so its file can
    /// be deleted.
    pub fn invalidate(&mut self, file_path: &str) -> (removed: Option<CacheEntry>)
        requires
            old(self).wf(),
        ensures
            final(self).wf(),
            !has_key(final(self).memory()@, file_path@),
            final(self).memory()@ == without_key(old(self).memory()@, file_path@),
            final(self).memory().cap() == old(self).memory().cap(),
            final(self).local_stats() == old(self).local_stats().remove(file_path@),
            final(self).loads() == old(self).loads().remove(file_path@),
            final(self).attempts() == old(self).attempts().remove(file_path@),
            final(self).probes() == old(self).probes(),
            final(self).disk() is Some <==> old(self).disk() is Some,
            final(self).disk() matches Some(d) ==> d.index() == old(self).disk().unwrap().index().remove(
                file_path@,
            ),
            match removed {
                Some(e) => old(self).disk() matches Some(d) && d.index().contains_key(file_path@) && e
                    == d.index()[file_path@],
                None => !(old(self).disk() matches Some(d) && d.index().contains_key(file_path@)),
            },
    {
        proof {
            crate::cache::memory::law_within_cap(&self.memory_cache);
            crate::cache::memory::law_removed_key_absent(self.memory_cache@, file_path@);
        }
        self.memory_cache.remove(file_path);
        let _ = self.local_stats.remove(file_path);
        let _ = self.active_loads.remove(file_path);
        let _ = self.revalidation_attempts.remove(file_path);
        match &mut self.disk_cache {
            Some(disk) => disk.remove_entry(file_path),
            None => None,
        }
    }

    /// The disk cache, when it is enabled.
    pub fn disk_cache(&self) -> (r: Option<&DiskCache>)
        ensures
            r is Some <==> self.disk() is Some,
            r matches Some(d) ==> *d == self.disk().unwrap(),
    {
        match &self.disk_cache {
            Some(d) => Some(d),
            None => None,
        }
    }

    /// The disk-cache index, for writing it out on shutdown.
    pub fn disk_metadata(&self) -> (r: Option<&CacheMetadata>)
        requires
            self.wf(),
        ensures
            r is Some <==> self.disk() is Some,
            r matches Some(m) ==> m@ == self.disk().unwrap().index() && m.wf(),
    {
        match &self.disk_cache {
            Some(disk) => Some(disk.metadata()),
            None => None,
        }
    }

    /// Memory cache statistics.
    pub fn memory_stats(&self) -> (r: CacheStats)
        requires
            self.wf(),
        ensures
            r.entry_count == self.memory()@.len(),
            r.size_bytes == total_bytes(self.memory()@),
    {
        CacheStats {
            entry_count: self.memory_cache.len(),
            size_bytes: self.memory_cache.memory_usage_bytes() as u64,
        }
    }

    /// Disk cache statistics (zero when the disk cache is off).
    pub fn disk_stats(&self) -> (r: CacheStats)
        requires
            self.wf(),
        ensures
            r.entry_count == (match self.disk() {
                Some(d) => d.index().len(),
                None => 0,
            }),
            r.size_bytes as nat == (match self.disk() {
                Some(d) => total_file_bytes(d.records()) % 0x1_0000_0000_0000_0000,
                None => 0,
            }),
    {
        match &self.disk_cache {
            Some(disk) => CacheStats {
                entry_count: disk.entry_count(),
                size_bytes: disk.total_size_bytes(),
            },
            None => CacheStats { entry_count: 0, size_bytes: 0 },
        }
    }

    /// Record a local file's identity after decoding it, so a later load can
    /// detect an edit. Nothing is recorded when the file could not be read or
    /// has no modification time.
    pub fn record_local_stat(&mut self, path: &str, stat: Option<FileStat>)
        requires
            old(self).wf(),
        ensures
            final(self).wf(),
            final(self).loads() == old(self).loads(),
            final(self).probes() == old(self).probes(),
            final(self).attempts() == old(self).attempts(),
            final(self).memory() == old(self).memory(),
            final(self).disk() == old(self).disk(),
            final(self).local_stats() == (match stat {
                Some(s) => match s.modified {
                    Some(m) => old(self).local_stats().insert(path@, (m, s.len)),
                    None => old(self).local_stats(),
                },
                None => old(self).local_stats(),
            }),
    {
        match stat {
            Some(s) => match s.modified {
                Some(m) => self.local_stats.insert(path.to_owned(), (m, s.len)),
                None => {},
            },
            None => {},
        }
    }

    /// Whether a local file changed since it was decoded: its length or its
    /// modification time differs from what was recorded. No record, an
    /// unreadable file, or an unreadable modification time reads as unchanged,
    /// so a transient error never thrashes the cache.
    pub fn local_file_changed(&self, path: &str, current: Option<FileStat>) -> (r: bool)
        requires
            self.wf(),
        ensures
            r == (self.local_stats().contains_key(path@) && current is Some && (current.unwrap().len
                != self.local_stats()[path@].1 || (current.unwrap().modified matches Some(m) && m
                != self.local_stats()[path@].0))),
    {
        match self.local_stats.get(path) {
            Some(recorded) => match current {
                Some(meta) => {
                    let size_changed = meta.len != recorded.1;
                    let mtime_changed = match meta.modified {
                        Some(m) => m != recorded.0,
                        None => false,
                    };
                    size_changed || mtime_changed
                },
                None => false,
            },
            None => false,
        }
    }

    /// Whether a memory-resident copy of `path` is served as it is: always
    /// for a URL or under pinned freshness; for a local file otherwise only
    /// when it has not changed on disk since it was decoded (`current` is what
    /// the file system says of it now; see
    /// [`CacheManager::local_file_changed`]). A changed file is decoded again.
    pub fn serves_resident(&self, path: &str, freshness: FreshnessMode, current: Option<FileStat>) -> (r: bool)
        requires
            self.wf(),
        ensures
            r == (is_url(path@) || freshness == FreshnessMode::Pinned || !(self.local_stats().contains_key(
                path@,
            ) && current is Some && (current.unwrap().len != self.local_stats()[path@].1 || (
            current.unwrap().modified matches Some(m) && m != self.local_stats()[path@].0)))),
    {
        if is_url_path(path) {
            return true;
        }
        match freshness {
            FreshnessMode::Pinned => true,
            _ => !self.local_file_changed(path, current),
        }
    }

    /// A stored header probe for `path`, valid only while the file keeps the
    /// identity it was probed at (see [`ProbeCache::cached_probe`]).
    pub fn cached_probe(&self, path: &str, current: Option<FileStat>) -> (r: Option<Probe>)
        requires
            self.wf(),
        ensures
            r == (if self.probes()@.contains_key(path@) && current is Some && current.unwrap().len
                == self.probes()@[path@].size && current.unwrap().modified
                == self.probes()@[path@].modified {
                Some(self.probes()@[path@].probe)
            } else {
                None
            }),
    {
        self.probe_cache.cached_probe(path, current)
    }

    /// Store a header probe for `path` (see [`ProbeCache::store_probe`]).
    pub fn store_probe(&mut self, path: &str, current: Option<FileStat>, probe: Probe)
        requires
            old(self).wf(),
        ensures
            final(self).wf(),
            final(self).loads() == old(self).loads(),
            final(self).local_stats() == old(self).local_stats(),
            final(self).attempts() == old(self).attempts(),
            final(self).memory() == old(self).memory(),
            final(self).disk() == old(self).disk(),
            current is None ==> final(self).probes()@ == old(self).probes()@,
            current matches Some(meta) ==> final(self).probes()@.contains_key(path@) && final(self).probes()@[path@].probe == probe,
    {
        self.probe_cache.store_probe(path, current, probe);
    }

    /// The disk-cached URLs whose decoded copy is also resident in memory: the
    /// ones a background freshness pass checks, so a changed file's stale copy
    /// can be dropped before the next play.
    pub fn resident_cached_urls(&self) -> (r: Vec<String>)
        requires
            self.wf(),
        ensures
            forall|i: int| 0 <= i < r@.len() ==> has_key(self.memory()@, #[trigger] r@[i]@) && ((
            self.disk() matches Some(d) && d.index().contains_key(r@[i]@))),
            self.disk() matches Some(d) ==> forall|u: Seq<char>|
                d.index().contains_key(u) && has_key(self.memory()@, u) ==> exists|i: int|
                    0 <= i < r@.len() && #[trigger] r@[i]@ == u,
            self.disk() is None ==> r@.len() == 0,
    {
        let mut out: Vec<String> = Vec::new();
        match &self.disk_cache {
            Some(disk) => {
                let urls = disk.cached_urls();
                let ghost names = urls@.map_values(|s: String| s@);
                let mut i: usize = 0;
                while i < urls.len()
                    invariant
                        self.wf(),
                        self.disk() == Some(*disk),
                        names == urls@.map_values(|s: String| s@),
                        names.to_set() == disk.index().dom(),
                        i <= urls@.len(),
                        forall|j: int| 0 <= j < out@.len() ==> has_key(self.memory()@, #[trigger] out@[j]@)
                            && disk.index().contains_key(out@[j]@),
                        forall|j: int| 0 <= j < i && has_key(self.memory()@, #[trigger] names[j])
                            ==> exists|k: int| 0 <= k < out@.len() && out@[k]@ == names[j],
                    decreases urls@.len() - i,
                {
                    proof {
                        assert(names[i as int] == urls@[i as int]@);
                        assert(names.to_set().contains(names[i as int]));
                    }
                    let ghost prev = out@;
                    if self.memory_cache.contains(urls[i].as_str()) {
                        out.push(urls[i].clone());
                        proof {
                            assert(out@[out@.len() - 1]@ == names[i as int]);
                        }
                    }
                    proof {
                        assert forall|j: int|
                            0 <= j < i + 1 && has_key(self.memory()@, #[trigger] names[j]) implies exists|k: int|
                            0 <= k < out@.len() && out@[k]@ == names[j] by {
                            if j < i {
                                let k = choose|k: int| 0 <= k < prev.len() && prev[k]@ == names[j];
                                assert(out@[k] == prev[k]);
                            } else {
                                assert(out@[out@.len() - 1]@ == names[j]);
                            }
                        }
                    }
                    i += 1;
                }
                proof {
                    assert forall|u: Seq<char>|
                        disk.index().contains_key(u) && has_key(self.memory()@, u) implies exists|i: int|
                        0 <= i < out@.len() && #[trigger] out@[i]@ == u by {
                        assert(names.to_set().contains(u));
                        let j = choose|j: int| 0 <= j < names.len() && names[j] == u;
                        assert(has_key(self.memory()@, names[j]));
                    }
                }
            },
            None => {},
        }
        out
    }

    /// Drop the decoded copy of `url` after a freshness check found it changed,
    /// so the next play decodes the fresh disk file.
    pub fn drop_decoded(&mut self, url: &str) -> (r: bool)
        requires
            old(self).wf(),
        ensures
            final(self).wf(),
            final(self).loads() == old(self).loads(),
            final(self).local_stats() == old(self).local_stats(),
            final(self).probes() == old(self).probes(),
            final(self).attempts() == old(self).attempts(),
            final(self).disk() == old(self).disk(),
            r == has_key(old(self).memory()@, url@),
            final(self).memory()@ == without_key(old(self).memory()@, url@),
    {
        self.memory_cache.remove(url)
    }
}


/// Whether it is time to ask the server whether the cached copy of `url` is
/// still current: it is an HTTP(S) URL whose copy is whole on disk (its file
/// `on_disk_len` long), and the last check this run (at monotonic time
/// `attempted`) is an interval ago or more, or, with none this run, its
/// recorded validation is not less than an interval old at wall time
/// `now_wall_ms` (an unreadable or future one counts as old).
pub open spec fn spec_revalidation_due(
    m: CacheManager,
    url: Seq<char>,
    on_disk_len: Option<u64>,
    now_mono_ms: u64,
    now_wall_ms: i64,
) -> bool {
    let interval: int = m.revalidate_after() as int * 1000;
    &&& crate::config::is_url(url)
    &&& m.disk() matches Some(d)
    &&& d.index().contains_key(url)
    &&& on_disk_len == Some(d.index()[url].file_size)
    &&& if m.attempts().contains_key(url) {
        !((if now_mono_ms >= m.attempts()[url] {
            now_mono_ms - m.attempts()[url]
        } else {
            0
        }) < interval)
    } else {
        match crate::clock::spec_rfc3339_millis(d.index()[url].last_validated@) {
            Some(v) => !(0 <= now_wall_ms - v < interval),
            None => true,
        }
    }
}

impl CacheManager {
    /// Whether the cached copy of `url` is due for a freshness check (see
    /// [`spec_revalidation_due`]); `on_disk_len` is its disk file's length now.
    pub fn revalidation_due(&self, url: &str, on_disk_len: Option<u64>, now_mono_ms: u64, now_wall_ms: i64) -> (r: bool)
        requires
            self.wf(),
        ensures
            r == spec_revalidation_due(*self, url@, on_disk_len, now_mono_ms, now_wall_ms),
    {
        if !crate::config::is_url_path(url) {
            return false;
        }
        let disk = match &self.disk_cache {
            Some(d) => d,
            None => return false,
        };
        let entry = match disk.get_entry(url) {
            Some(e) => e,
            None => return false,
        };
        if !disk.is_cached(url, on_disk_len) {
            return false;
        }
        let interval: u128 = (self.revalidate_after_seconds as u128) * 1000;
        match self.revalidation_attempts.get(url) {
            Some(attempted) => {
                let elapsed = now_mono_ms.saturating_sub(*attempted);
                !((elapsed as u128) < interval)
            },
            None => match crate::clock::rfc3339_millis(entry.last_validated.as_str()) {
                Some(v) => {
                    let age: i128 = now_wall_ms as i128 - v as i128;
                    !(age >= 0 && (age as u128) < interval)
                },
                None => true,
            },
        }
    }

    /// Note that `url` was checked against its server at monotonic time `now_mono_ms`.
    pub fn record_revalidation_attempt(&mut self, url: &str, now_mono_ms: u64)
        requires
            old(self).wf(),
        ensures
            final(self).wf(),
            final(self).loads() == old(self).loads(),
            final(self).probes() == old(self).probes(),
            final(self).attempts() == old(self).attempts().insert(url@, now_mono_ms),
            final(self).memory() == old(self).memory(),
            final(self).disk() == old(self).disk(),
            final(self).local_stats() == old(self).local_stats(),
            final(self).revalidate_after() == old(self).revalidate_after(),
    {
        self.revalidation_attempts.insert(url.to_owned(), now_mono_ms);
    }
}

} // verus!
