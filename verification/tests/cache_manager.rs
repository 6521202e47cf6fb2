use mqttaudio::audio::DecodedBuffer;
use mqttaudio::cache::disk::{CacheEntry, DiskCache};
use mqttaudio::cache::manager::{ActiveLoad, LoadEnd, LoadFate, LoadGeneration, PendingDiskWrite};
use mqttaudio::cache::probe::{FileStat, ProbeCache, PROBE_CACHE_CAP};
use mqttaudio::cache::strategy::Probe;
use mqttaudio::cache::{CacheManager, CacheStats};
use mqttaudio::cache::memory::{flags_from_counts, MemoryCache};
use mqttaudio::config::{FreshnessMode, MemoryCap, ResamplerQuality};
use std::sync::Arc;

fn empty_disk() -> DiskCache {
    DiskCache::new("/tmp/mqttaudio-test-cache".to_string(), None)
}

fn buffer(frames: usize) -> DecodedBuffer {
    DecodedBuffer {
        data: vec![0.0f32.to_bits(); frames * 2],
        channels: 2,
        sample_rate: 48000,
        frames,
    }
}

fn entry(size: u64) -> CacheEntry {
    CacheEntry {
        local_file: "abc.wav".to_string(),
        etag: None,
        last_modified: None,
        last_validated: "2024-01-01T00:00:00Z".to_string(),
        file_size: size,
        content_type: None,
    }
}

#[test]
fn test_cache_manager_creation() {
    let cache_manager = CacheManager::new(empty_disk());

    let stats = cache_manager.memory_stats();
    assert_eq!(stats.entry_count, 0);
    assert_eq!(stats.size_bytes, 0);
}

#[test]
fn memory_cap_reports_the_resolved_budget() {
    let bounded = CacheManager::with_resolved_cap(
        empty_disk(),
        ResamplerQuality::Fast,
        MemoryCap::Bytes(64 * 1024 * 1024),
        Vec::new(),
        300,
    );
    assert_eq!(bounded.memory_cap(), Some(64 * 1024 * 1024));

    let unlimited = CacheManager::with_resolved_cap(
        empty_disk(),
        ResamplerQuality::Fast,
        MemoryCap::Unlimited,
        Vec::new(),
        300,
    );
    assert_eq!(unlimited.memory_cap(), None);
}

#[test]
fn test_cache_stats_initial_empty() {
    let cache_manager = CacheManager::new(empty_disk());

    let mem_stats = cache_manager.memory_stats();
    let disk_stats = cache_manager.disk_stats();

    assert_eq!(mem_stats.entry_count, 0);
    assert_eq!(mem_stats.size_bytes, 0);
    assert_eq!(disk_stats.entry_count, 0);
    assert_eq!(disk_stats.size_bytes, 0);
}

#[test]
fn test_cache_stats_struct() {
    let stats = CacheStats {
        entry_count: 5,
        size_bytes: 1024 * 1024 * 10, // 10 MB
    };

    assert_eq!(stats.entry_count, 5);
    assert_eq!(stats.size_bytes, 10 * 1024 * 1024);
}

#[test]
fn test_cache_stats_clone() {
    let stats = CacheStats {
        entry_count: 3,
        size_bytes: 12345,
    };

    let cloned = stats.clone();
    assert_eq!(cloned.entry_count, 3);
    assert_eq!(cloned.size_bytes, 12345);
}

#[test]
fn stats_follow_stored_and_dropped_buffers() {
    let mut manager = CacheManager::new(empty_disk());
    manager.store_decoded("a.wav".to_string(), Arc::new(buffer(100)));
    manager.store_decoded("b.wav".to_string(), Arc::new(buffer(50)));
    let stats = manager.memory_stats();
    assert_eq!(stats.entry_count, 2);
    assert_eq!(stats.size_bytes, (150 * 2 * 4) as u64);
    assert!(manager.is_in_memory_cache("a.wav"));
    assert!(manager.get_cached("a.wav").is_some());
    manager.clear_all();
    assert_eq!(manager.memory_stats().entry_count, 0);
    assert!(manager.get_cached("a.wav").is_none());
}

#[test]
fn headroom_of_a_bounded_cache_shrinks_as_it_fills() {
    let mut manager = CacheManager::with_options(empty_disk(), ResamplerQuality::Fast, 1, Vec::new(), 300);
    assert_eq!(manager.memory_cap(), Some(1024 * 1024));
    assert_eq!(manager.memory_headroom(), 1024 * 1024);
    manager.store_decoded("a.wav".to_string(), Arc::new(buffer(1000)));
    // the entry is evictable, so the whole cap remains available
    assert_eq!(manager.memory_headroom(), 1024 * 1024);
}

#[test]
fn invalidate_drops_the_disk_entry_and_the_decode() {
    let mut disk = empty_disk();
    disk.put_entry("http://x/a.wav".to_string(), entry(10));
    let mut manager = CacheManager::new(disk);
    manager.store_decoded("http://x/a.wav".to_string(), Arc::new(buffer(10)));
    assert_eq!(manager.disk_stats().entry_count, 1);
    assert_eq!(manager.disk_stats().size_bytes, 10);
    let removed = manager.invalidate("http://x/a.wav");
    assert!(removed.is_some());
    assert!(!manager.is_resident("http://x/a.wav"));
    assert_eq!(manager.disk_stats().entry_count, 0);
    assert!(manager.invalidate("http://x/a.wav").is_none());
}

#[test]
fn revalidation_is_due_once_per_interval() {
    let mut disk = empty_disk();
    let url = "http://example.com/a.wav";
    let mut e = entry(10);
    e.last_validated = "2024-01-01T00:00:00Z".to_string();
    disk.put_entry(url.to_string(), e);
    let mut manager = CacheManager::new(disk);
    // 2024-01-01T00:04:00Z: validated four minutes ago, the interval is five
    let four_minutes_later: i64 = 1_704_067_440_000;
    assert!(!manager.revalidation_due(url, Some(10), 0, four_minutes_later));
    assert!(manager.revalidation_due(url, Some(10), 0, four_minutes_later + 60_000));
    // not when the file on disk is not whole, nor for local paths
    assert!(!manager.revalidation_due(url, Some(9), 0, four_minutes_later + 60_000));
    assert!(!manager.revalidation_due("/local/a.wav", Some(10), 0, four_minutes_later + 60_000));
    // an attempt this run gates the next one by the same interval
    manager.record_revalidation_attempt(url, 1_000);
    assert!(!manager.revalidation_due(url, Some(10), 200_000, i64::MAX));
    assert!(manager.revalidation_due(url, Some(10), 301_000, 0));
}

#[test]
fn load_generation_detects_a_changed_or_vanished_file() {
    assert!(LoadGeneration::capture("/a.wav", None).is_none());
    let g = LoadGeneration::capture("/a.wav", Some(FileStat { len: 10, modified: Some(5) })).unwrap();
    assert_eq!(g.path, "/a.wav");
    assert!(g.still_current(Some(FileStat { len: 10, modified: Some(5) })));
    assert!(!g.still_current(Some(FileStat { len: 11, modified: Some(5) })));
    assert!(!g.still_current(Some(FileStat { len: 10, modified: Some(6) })));
    assert!(!g.still_current(Some(FileStat { len: 10, modified: None })));
    assert!(!g.still_current(None));
    let untimed = LoadGeneration::capture("/b.wav", Some(FileStat { len: 3, modified: None })).unwrap();
    assert!(untimed.still_current(Some(FileStat { len: 3, modified: Some(9) })));
}

fn pending() -> PendingDiskWrite {
    PendingDiskWrite {
        cache_filename: "abc.wav".to_string(),
        final_path: "/tmp/mqttaudio-test-cache/files/abc.wav".to_string(),
        etag: Some("\"v1\"".to_string()),
        last_modified: None,
        content_type: Some("audio/wav".to_string()),
    }
}

#[test]
fn a_failed_load_is_dropped_without_touching_the_caches() {
    let mut manager = CacheManager::new(empty_disk());
    let load = ActiveLoad { path: "http://x/a.wav".to_string(), generation: None, pending_disk_write: Some(pending()) };
    let fate = manager.fold_finished_load(load, LoadEnd::Failed, None, Some(64), "now".to_string());
    assert_eq!(fate, LoadFate::Dropped);
    assert!(!manager.is_in_memory_cache("http://x/a.wav"));
    assert_eq!(manager.disk_stats().entry_count, 0);
}

#[test]
fn a_load_whose_file_changed_is_not_published() {
    let mut manager = CacheManager::new(empty_disk());
    let generation = LoadGeneration::capture("/s/a.wav", Some(FileStat { len: 100, modified: Some(5) }));
    let load = ActiveLoad { path: "/s/a.wav".to_string(), generation, pending_disk_write: None };
    let now = Some(FileStat { len: 100, modified: Some(6) });
    let fate = manager.fold_finished_load(load, LoadEnd::Complete(Arc::new(buffer(10))), now, None, "now".to_string());
    assert_eq!(fate, LoadFate::Stale);
    assert!(!manager.is_in_memory_cache("/s/a.wav"));
}

#[test]
fn a_completed_download_is_promoted_and_indexed() {
    let mut manager = CacheManager::new(empty_disk());
    let load = ActiveLoad { path: "http://x/a.wav".to_string(), generation: None, pending_disk_write: Some(pending()) };
    let fate = manager.fold_finished_load(
        load,
        LoadEnd::Complete(Arc::new(buffer(10))),
        None,
        Some(64),
        "2024-05-01T12:00:00Z".to_string(),
    );
    assert_eq!(fate, LoadFate::Promoted);
    assert!(manager.is_in_memory_cache("http://x/a.wav"));
    assert_eq!(manager.disk_stats().entry_count, 1);
    assert_eq!(manager.disk_stats().size_bytes, 64);
}

#[test]
fn an_unchanged_local_load_is_promoted_without_a_disk_entry() {
    let mut manager = CacheManager::new(empty_disk());
    let stat = FileStat { len: 100, modified: Some(5) };
    let generation = LoadGeneration::capture("/s/a.wav", Some(stat));
    let load = ActiveLoad { path: "/s/a.wav".to_string(), generation, pending_disk_write: None };
    let fate = manager.fold_finished_load(load, LoadEnd::Complete(Arc::new(buffer(10))), Some(stat), Some(64), "now".to_string());
    assert_eq!(fate, LoadFate::Promoted);
    assert!(manager.is_in_memory_cache("/s/a.wav"));
    assert_eq!(manager.disk_stats().entry_count, 0);
}

#[test]
fn an_edited_local_file_is_noticed() {
    let mut manager = CacheManager::new(empty_disk());
    let stat = FileStat { len: 100, modified: Some(5) };
    assert!(!manager.local_file_changed("/s/a.wav", Some(stat)));
    manager.record_local_stat("/s/a.wav", Some(stat));
    assert!(!manager.local_file_changed("/s/a.wav", Some(stat)));
    assert!(manager.local_file_changed("/s/a.wav", Some(FileStat { len: 101, modified: Some(5) })));
    assert!(manager.local_file_changed("/s/a.wav", Some(FileStat { len: 100, modified: Some(6) })));
    assert!(!manager.local_file_changed("/s/a.wav", None));
}

#[test]
fn dropping_a_decode_keeps_the_disk_copy() {
    let mut disk = empty_disk();
    disk.put_entry("http://x/a.wav".to_string(), entry(10));
    let mut manager = CacheManager::new(disk);
    manager.store_decoded("http://x/a.wav".to_string(), Arc::new(buffer(10)));
    manager.store_decoded("/s/b.wav".to_string(), Arc::new(buffer(10)));
    assert_eq!(manager.resident_cached_urls(), vec!["http://x/a.wav".to_string()]);
    assert!(manager.drop_decoded("http://x/a.wav"));
    assert!(!manager.drop_decoded("http://x/a.wav"));
    assert!(manager.resident_cached_urls().is_empty());
    assert_eq!(manager.disk_stats().entry_count, 1);
}

#[test]
fn a_changed_local_file_is_reloaded_in_trusting_but_not_pinned() {
    let mut manager = CacheManager::new(empty_disk());
    let before = FileStat { len: 100, modified: Some(5) };
    let after = FileStat { len: 200, modified: Some(6) };
    manager.record_local_stat("/s/a.wav", Some(before));
    assert!(manager.serves_resident("/s/a.wav", FreshnessMode::Trusting, Some(before)));
    assert!(!manager.serves_resident("/s/a.wav", FreshnessMode::Trusting, Some(after)));
    assert!(!manager.serves_resident("/s/a.wav", FreshnessMode::Dev, Some(after)));
    assert!(manager.serves_resident("/s/a.wav", FreshnessMode::Pinned, Some(after)));
    assert!(manager.serves_resident("http://x/a.wav", FreshnessMode::Trusting, Some(after)));
}

#[test]
fn protection_follows_outside_references() {
    assert_eq!(flags_from_counts(&vec![1, 2, 1, 5]), vec![false, true, false, true]);
    let mut cache = MemoryCache::new();
    let playing = Arc::new(buffer(10));
    cache.put("a.wav".to_string(), Arc::clone(&playing));
    cache.put("b.wav".to_string(), Arc::new(buffer(10)));
    assert_eq!(cache.reference_counts(), vec![2, 1]);
    assert_eq!(cache.protection(), vec![true, false]);
    drop(playing);
    assert_eq!(cache.protection(), vec![false, false]);
}

#[test]
fn a_looked_up_buffer_only_moves_to_the_back() {
    let mut manager = CacheManager::new(empty_disk());
    manager.store_decoded("a.wav".to_string(), Arc::new(buffer(10)));
    manager.store_decoded("b.wav".to_string(), Arc::new(buffer(20)));
    let before = manager.memory_stats();
    assert!(manager.get_cached("a.wav").is_some());
    let after = manager.memory_stats();
    assert_eq!(before.entry_count, after.entry_count);
    assert_eq!(before.size_bytes, after.size_bytes);
}

#[test]
fn a_registered_load_is_folded_once() {
    let mut manager = CacheManager::new(empty_disk());
    let url = "http://x/a.wav";
    assert!(!manager.is_loading(url, false));
    assert_eq!(manager.loading_progress(url, 10, Some(100)), None);
    manager.start_load(ActiveLoad { path: url.to_string(), generation: None, pending_disk_write: Some(pending()) });
    assert!(manager.is_loading(url, false));
    assert!(!manager.is_loading(url, true));
    assert_eq!(manager.loading_progress(url, 10, Some(100)), Some((10, Some(100))));
    let fate = manager.finish_load(url, LoadEnd::Complete(Arc::new(buffer(10))), None, Some(64), "now".to_string());
    assert_eq!(fate, Some(LoadFate::Promoted));
    assert!(manager.is_in_memory_cache(url));
    assert_eq!(manager.disk_stats().entry_count, 1);
    assert!(!manager.is_loading(url, false));
    assert_eq!(manager.finish_load(url, LoadEnd::Failed, None, None, "now".to_string()), None);
}

#[test]
fn invalidate_abandons_the_in_flight_load_and_the_last_attempt() {
    let mut disk = empty_disk();
    let url = "http://example.com/a.wav";
    let mut e = entry(10);
    e.last_validated = "2024-01-01T00:00:00Z".to_string();
    disk.put_entry(url.to_string(), e);
    let mut manager = CacheManager::new(disk);
    manager.start_load(ActiveLoad { path: url.to_string(), generation: None, pending_disk_write: None });
    manager.record_revalidation_attempt(url, 1_000);
    assert!(!manager.revalidation_due(url, Some(10), 200_000, i64::MAX));
    assert!(manager.invalidate(url).is_some());
    assert!(!manager.is_loading(url, false));
    assert_eq!(manager.loading_progress(url, 1, None), None);
    let fate = manager.finish_load(url, LoadEnd::Complete(Arc::new(buffer(10))), None, None, "now".to_string());
    assert_eq!(fate, None);
    assert!(!manager.is_in_memory_cache(url));
    // the attempt is forgotten, and nothing is cached any more, so no check is due
    assert!(!manager.revalidation_due(url, Some(10), 200_000, i64::MAX));
}

#[test]
fn clearing_the_caches_leaves_loads_in_flight() {
    let mut manager = CacheManager::new(empty_disk());
    manager.start_load(ActiveLoad { path: "/s/a.wav".to_string(), generation: None, pending_disk_write: None });
    manager.store_decoded("/s/b.wav".to_string(), Arc::new(buffer(10)));
    manager.clear_all();
    assert_eq!(manager.memory_stats().entry_count, 0);
    assert!(manager.is_loading("/s/a.wav", false));
}

#[test]
fn the_oldest_probe_goes_first() {
    let probe = Probe { est_decoded_bytes: Some(1), est_frames: Some(1), sample_rate: 48000 };
    let stat = Some(FileStat { len: 1, modified: Some(1) });
    let mut cache = ProbeCache::new();
    for i in 0..PROBE_CACHE_CAP {
        cache.store_probe(&format!("/p/{}", i), stat, probe);
    }
    assert!(cache.cached_probe("/p/0", stat).is_some());
    cache.store_probe("/p/0", stat, probe);
    cache.store_probe("/p/new", stat, probe);
    assert!(cache.cached_probe("/p/0", stat).is_none());
    assert!(cache.cached_probe("/p/1", stat).is_some());
    assert!(cache.cached_probe("/p/new", stat).is_some());
}
