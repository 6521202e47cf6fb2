use mqttaudio::audio::DecodedBuffer;
use mqttaudio::cache::memory::{CacheFull, MemoryCache};
use mqttaudio::config::MemoryCap;
use std::sync::Arc;

#[test]
fn test_put_replacing_existing_key_keeps_size_consistent() {
    // Replacing a key must not let the eviction loop double-subtract the
    // old entry's size (which would wrap current_size_bytes in release)
    let mut cache = MemoryCache::with_max_size(16_000);

    // Replace a resident entry while another evictable entry consumes headroom.
    let big = Arc::new(create_test_buffer(2, 1500));
    cache.put("a".to_string(), big.clone());
    let size_after_first = cache.current_size_bytes();

    cache.put("b".to_string(), Arc::new(create_test_buffer(1, 500)));
    cache.put("a".to_string(), big.clone());
    cache.remove("b");
    assert_eq!(
        cache.current_size_bytes(),
        size_after_first,
        "replacing a key with an identical buffer must not change the accounted size"
    );
    assert_eq!(cache.len(), 1);

    // And the cache must still behave sanely afterwards
    cache.put("b".to_string(), Arc::new(create_test_buffer(1, 100)));
    assert!(cache.current_size_bytes() < 20_000);
}

fn create_test_buffer(channels: usize, frames: usize) -> DecodedBuffer {
    let data = vec![0.0f32.to_bits(); channels * frames];
    DecodedBuffer {
        data,
        channels,
        sample_rate: 48000,
        frames,
    }
}

#[test]
fn test_memory_cache_new() {
    let cache = MemoryCache::new();
    assert_eq!(cache.len(), 0);
    assert!(cache.is_empty());
}

#[test]
fn test_put_and_get() {
    let mut cache = MemoryCache::new();
    let buffer = Arc::new(create_test_buffer(2, 1000));

    let url = "http://example.com/test.wav";
    cache.put(url.to_string(), buffer.clone());

    assert_eq!(cache.len(), 1);
    assert!(cache.contains(url));

    let retrieved = cache.get(url).unwrap();
    assert_eq!(retrieved.channels, 2);
    assert_eq!(retrieved.frames, 1000);
    assert_eq!(retrieved.sample_rate, 48000);

    // Arc should point to the same data
    assert!(Arc::ptr_eq(&buffer, &retrieved));
}

#[test]
fn test_get_nonexistent() {
    let mut cache = MemoryCache::new();
    assert!(cache.get("nonexistent").is_none());
}

#[test]
fn test_remove() {
    let mut cache = MemoryCache::new();
    let buffer = Arc::new(create_test_buffer(2, 500));

    let url = "http://example.com/remove.wav";
    cache.put(url.to_string(), buffer);

    assert!(cache.contains(url));
    assert!(cache.remove(url));
    assert!(!cache.contains(url));
    assert_eq!(cache.len(), 0);

    // Removing again should return false
    assert!(!cache.remove(url));
}

#[test]
fn test_clear() {
    let mut cache = MemoryCache::new();

    // Add multiple entries
    for i in 0..5 {
        let url = format!("http://example.com/test{}.wav", i);
        let buffer = Arc::new(create_test_buffer(2, 1000));
        cache.put(url, buffer);
    }

    assert_eq!(cache.len(), 5);

    cache.clear();

    assert_eq!(cache.len(), 0);
    assert!(cache.is_empty());
}

#[test]
fn test_overwrite_entry() {
    let mut cache = MemoryCache::new();
    let url = "http://example.com/test.wav";

    // Add first buffer
    let buffer1 = Arc::new(create_test_buffer(2, 1000));
    cache.put(url.to_string(), buffer1.clone());

    // Overwrite with second buffer
    let buffer2 = Arc::new(create_test_buffer(2, 2000));
    cache.put(url.to_string(), buffer2.clone());

    // Should have the second buffer
    assert_eq!(cache.len(), 1);
    let retrieved = cache.get(url).unwrap();
    assert_eq!(retrieved.frames, 2000);
    assert!(Arc::ptr_eq(&buffer2, &retrieved));
    assert!(!Arc::ptr_eq(&buffer1, &retrieved));
}

#[test]
fn test_memory_usage() {
    let mut cache = MemoryCache::new();

    // Add a stereo buffer with 48000 frames (1 second at 48kHz)
    let buffer = Arc::new(create_test_buffer(2, 48000));
    cache.put("test.wav".to_string(), buffer);

    // Calculate expected size
    // 2 channels * 48000 frames * 4 bytes per f32 = 384000 bytes
    let expected_bytes = 2 * 48000 * 4;
    assert_eq!(cache.memory_usage_bytes(), expected_bytes);
}

#[test]
fn test_multiple_entries_memory_usage() {
    let mut cache = MemoryCache::new();

    // Add 3 buffers
    for i in 0..3 {
        let buffer = Arc::new(create_test_buffer(2, 10000));
        cache.put(format!("test{}.wav", i), buffer);
    }

    // 3 buffers * 2 channels * 10000 frames * 4 bytes = 240000 bytes
    let expected_bytes = 3 * 2 * 10000 * 4;
    assert_eq!(cache.memory_usage_bytes(), expected_bytes);
}

#[test]
fn test_arc_ref_counting() {
    let mut cache = MemoryCache::new();
    let url = "http://example.com/ref.wav";

    let buffer = Arc::new(create_test_buffer(2, 100));
    let weak_before = Arc::downgrade(&buffer);

    // Strong count should be 1
    assert_eq!(Arc::strong_count(&buffer), 1);

    cache.put(url.to_string(), buffer.clone());

    // Strong count should be 2 (our reference + cache)
    assert_eq!(Arc::strong_count(&buffer), 2);

    let retrieved = cache.get(url).unwrap();

    // Strong count should be 3 (our ref + cache + retrieved)
    assert_eq!(Arc::strong_count(&buffer), 3);

    drop(retrieved);

    // Strong count back to 2
    assert_eq!(Arc::strong_count(&buffer), 2);

    cache.remove(url);

    // Strong count back to 1
    assert_eq!(Arc::strong_count(&buffer), 1);

    // Weak reference should still be valid
    assert!(weak_before.upgrade().is_some());

    drop(buffer);

    // Now weak reference should be invalid
    assert!(weak_before.upgrade().is_none());
}

#[test]
fn test_memory_cache_with_limit() {
    // Create cache with 1MB limit
    let cache = MemoryCache::with_max_size(1024 * 1024);
    assert_eq!(cache.max_size_bytes(), Some(1024 * 1024));
    assert_eq!(cache.current_size_bytes(), 0);
}

#[test]
fn test_memory_cache_unlimited() {
    // Create cache with no limit (0 means unlimited)
    let cache = MemoryCache::with_max_size(0);
    assert_eq!(cache.max_size_bytes(), None);
}

#[test]
fn test_lru_eviction_basic() {
    // Create cache with limit that fits exactly 2 buffers
    // Each buffer: 2 channels * 10000 frames * 4 bytes = 80000 bytes
    let buffer_size = 2 * 10000 * 4;
    let mut cache = MemoryCache::with_max_size(buffer_size * 2);

    // Add first buffer
    let buffer1 = Arc::new(create_test_buffer(2, 10000));
    cache.put("first.wav".to_string(), buffer1);
    assert!(cache.contains("first.wav"));

    // Add second buffer - should fit
    let buffer2 = Arc::new(create_test_buffer(2, 10000));
    cache.put("second.wav".to_string(), buffer2);
    assert!(cache.contains("first.wav"));
    assert!(cache.contains("second.wav"));

    // Add third buffer - should evict first (LRU)
    let buffer3 = Arc::new(create_test_buffer(2, 10000));
    cache.put("third.wav".to_string(), buffer3);
    assert!(!cache.contains("first.wav")); // evicted
    assert!(cache.contains("second.wav"));
    assert!(cache.contains("third.wav"));
}

#[test]
fn test_lru_access_updates_order() {
    let buffer_size = 2 * 10000 * 4;
    let mut cache = MemoryCache::with_max_size(buffer_size * 2);

    // Add two buffers
    let buffer1 = Arc::new(create_test_buffer(2, 10000));
    cache.put("first.wav".to_string(), buffer1);

    let buffer2 = Arc::new(create_test_buffer(2, 10000));
    cache.put("second.wav".to_string(), buffer2);

    // Access first buffer - makes it more recently used
    let _ = cache.get("first.wav");

    // Add third buffer - should evict second (now LRU)
    let buffer3 = Arc::new(create_test_buffer(2, 10000));
    cache.put("third.wav".to_string(), buffer3);
    assert!(cache.contains("first.wav")); // kept (was accessed)
    assert!(!cache.contains("second.wav")); // evicted (LRU)
    assert!(cache.contains("third.wav"));
}

#[test]
fn externally_referenced_buffer_is_not_evicted() {
    let buffer_size = 2 * 10000 * 4;
    let mut cache = MemoryCache::with_max_size(buffer_size * 2);

    // A "playing" buffer: we keep an Arc to it, exactly as an ActiveSample does.
    let playing = Arc::new(create_test_buffer(2, 10000));
    cache.put("playing.wav".to_string(), playing.clone());

    // An unreferenced buffer (the temporary Arc is dropped after put).
    cache.put(
        "other.wav".to_string(),
        Arc::new(create_test_buffer(2, 10000)),
    );
    // Make `other` the most-recently-used (and drop the returned Arc immediately,
    // so it stays unreferenced and therefore evictable).
    let _ = cache.get("other.wav");

    // Adding a third buffer forces an eviction. The still-referenced buffer must
    // survive even though it is the least-recently-used.
    cache.put(
        "third.wav".to_string(),
        Arc::new(create_test_buffer(2, 10000)),
    );

    assert!(
        cache.contains("playing.wav"),
        "a buffer still referenced by a player must not be evicted"
    );
    assert!(
        !cache.contains("other.wav"),
        "the unreferenced LRU entry should be evicted instead"
    );
    // Accounting reflects exactly the two resident buffers.
    assert_eq!(cache.memory_usage_bytes(), buffer_size * 2);
}

#[test]
fn test_playing_entries_never_evicted() {
    let buffer_size = 2 * 10000 * 4;
    let mut cache = MemoryCache::with_max_size(buffer_size * 2);

    // Keep an external Arc to "first", so it counts as playing (strong_count > 1).
    let first = Arc::new(create_test_buffer(2, 10000));
    cache.put("first.wav".to_string(), first.clone());

    cache.put(
        "second.wav".to_string(),
        Arc::new(create_test_buffer(2, 10000)),
    );

    // Add third buffer - should evict second (first is protected by its live Arc)
    cache.put(
        "third.wav".to_string(),
        Arc::new(create_test_buffer(2, 10000)),
    );
    assert!(cache.contains("first.wav")); // protected (still referenced)
    assert!(!cache.contains("second.wav")); // evicted
    assert!(cache.contains("third.wav"));
}

#[test]
fn test_buffer_evictable_after_external_ref_dropped() {
    let buffer_size = 2 * 10000 * 4;
    let mut cache = MemoryCache::with_max_size(buffer_size * 2);

    // While "first" is referenced it is protected from eviction.
    let first = Arc::new(create_test_buffer(2, 10000));
    cache.put("first.wav".to_string(), first.clone());
    cache.put(
        "second.wav".to_string(),
        Arc::new(create_test_buffer(2, 10000)),
    );
    cache.put(
        "third.wav".to_string(),
        Arc::new(create_test_buffer(2, 10000)),
    );
    assert!(cache.contains("first.wav"), "protected while referenced");

    // Drop the external reference; "first" is now just another cache entry.
    drop(first);
    // Touch the survivor so "first" is the LRU, then force another eviction.
    let _ = cache.get("third.wav");
    cache.put(
        "fourth.wav".to_string(),
        Arc::new(create_test_buffer(2, 10000)),
    );
    assert!(
        !cache.contains("first.wav"),
        "evictable once no longer referenced"
    );
}

#[test]
fn test_eviction_multiple_candidates() {
    let buffer_size = 2 * 10000 * 4;
    // Limit that fits 3 buffers
    let mut cache = MemoryCache::with_max_size(buffer_size * 3);

    cache.put(
        "first.wav".to_string(),
        Arc::new(create_test_buffer(2, 10000)),
    );
    cache.put(
        "second.wav".to_string(),
        Arc::new(create_test_buffer(2, 10000)),
    );
    // Keep an external Arc to "third", so it is protected (playing).
    let third = Arc::new(create_test_buffer(2, 10000));
    cache.put("third.wav".to_string(), third.clone());

    // Access second
    let _ = cache.get("second.wav");

    // Add fourth buffer - should evict first (LRU and not protected)
    cache.put(
        "fourth.wav".to_string(),
        Arc::new(create_test_buffer(2, 10000)),
    );
    assert!(!cache.contains("first.wav")); // evicted (oldest, not protected)
    assert!(cache.contains("second.wav")); // kept (accessed more recently)
    assert!(cache.contains("third.wav")); // kept (referenced/playing)
    assert!(cache.contains("fourth.wav")); // just added
}

#[test]
fn test_current_size_tracking() {
    let mut cache = MemoryCache::with_max_size(1024 * 1024);

    // Add a buffer: 2 channels * 1000 frames * 4 bytes = 8000 bytes
    let buffer = Arc::new(create_test_buffer(2, 1000));
    cache.put("test.wav".to_string(), buffer);
    assert_eq!(cache.current_size_bytes(), 8000);

    // Add another
    let buffer2 = Arc::new(create_test_buffer(2, 2000));
    cache.put("test2.wav".to_string(), buffer2);
    assert_eq!(cache.current_size_bytes(), 8000 + 16000);

    // Remove first
    cache.remove("test.wav");
    assert_eq!(cache.current_size_bytes(), 16000);
}

#[test]
fn try_put_rejects_when_only_protected_entries_remain() {
    // Cap fits exactly one buffer. A playing (protected) buffer occupies it; a new
    // buffer cannot evict it, so try_put refuses and caches nothing (no over-alloc).
    let buffer_size = 2 * 10000 * 4; // 80000 bytes
    let mut cache = MemoryCache::with_cap(MemoryCap::Bytes(buffer_size));
    let playing = Arc::new(create_test_buffer(2, 10000));
    cache.put("playing.wav".to_string(), playing.clone());

    let result = cache.try_put(
        "new.wav".to_string(),
        Arc::new(create_test_buffer(2, 10000)),
    );
    assert_eq!(result, Err(CacheFull));
    assert!(!cache.contains("new.wav"));
    assert!(cache.contains("playing.wav"));
    assert_eq!(
        cache.current_size_bytes(),
        buffer_size,
        "cap must not be exceeded"
    );
}

#[test]
fn try_put_evicts_an_unreferenced_entry_to_admit() {
    let buffer_size = 2 * 10000 * 4;
    let mut cache = MemoryCache::with_cap(MemoryCap::Bytes(buffer_size));
    // An unreferenced entry (the temporary Arc is dropped after put).
    cache.put(
        "old.wav".to_string(),
        Arc::new(create_test_buffer(2, 10000)),
    );
    // try_put admits by evicting the unreferenced LRU entry.
    assert!(cache
        .try_put(
            "new.wav".to_string(),
            Arc::new(create_test_buffer(2, 10000))
        )
        .is_ok());
    assert!(cache.contains("new.wav"));
    assert!(!cache.contains("old.wav"));
    assert_eq!(cache.current_size_bytes(), buffer_size);
}

#[test]
fn try_put_rejects_a_buffer_larger_than_the_whole_cap() {
    let mut cache = MemoryCache::with_cap(MemoryCap::Bytes(1000));
    let big = Arc::new(create_test_buffer(2, 10000)); // 80000 bytes > cap
    assert_eq!(cache.try_put("big.wav".to_string(), big), Err(CacheFull));
    assert_eq!(cache.current_size_bytes(), 0);
}

#[test]
fn fit_headroom_subtracts_protected_bytes() {
    let buffer_size = 2 * 10000 * 4;
    let mut cache = MemoryCache::with_cap(MemoryCap::Bytes(buffer_size * 4));
    // Two playing (protected) buffers occupy 2x; headroom is the remaining 2x.
    let a = Arc::new(create_test_buffer(2, 10000));
    let b = Arc::new(create_test_buffer(2, 10000));
    cache.put("a.wav".to_string(), a.clone());
    cache.put("b.wav".to_string(), b.clone());
    assert_eq!(cache.fit_headroom(), buffer_size * 2);
}

#[test]
fn unlimited_cache_has_unbounded_headroom() {
    let cache = MemoryCache::with_cap(MemoryCap::Unlimited);
    assert_eq!(cache.fit_headroom(), usize::MAX);
}

#[test]
fn put_drops_silently_when_cache_full_instead_of_over_allocating() {
    let buffer_size = 2 * 10000 * 4;
    let mut cache = MemoryCache::with_cap(MemoryCap::Bytes(buffer_size));
    let playing = Arc::new(create_test_buffer(2, 10000));
    cache.put("playing.wav".to_string(), playing.clone());
    cache.put(
        "overflow.wav".to_string(),
        Arc::new(create_test_buffer(2, 10000)),
    );
    assert!(
        !cache.contains("overflow.wav"),
        "put must not over-allocate"
    );
    assert_eq!(cache.current_size_bytes(), buffer_size, "cap not exceeded");
}

#[test]
fn headroom_counts_a_playing_buffer_under_any_key() {
    let mut cache = MemoryCache::with_max_size(100);
    let playing = Arc::new(create_test_buffer(1, 10));
    cache.put(String::new(), Arc::clone(&playing));
    assert_eq!(cache.fit_headroom(), 60);
    cache.put("b.wav".to_string(), Arc::new(create_test_buffer(1, 10)));
    assert_eq!(cache.fit_headroom(), 60);
    drop(playing);
    assert_eq!(cache.fit_headroom(), 100);
}
