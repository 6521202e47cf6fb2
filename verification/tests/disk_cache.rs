use mqttaudio::cache::disk::{
    CacheEntry, CacheMetadata, DiskCache, Revalidation, CACHE_METADATA_VERSION,
};
use sha2::{Digest, Sha256};

fn entry(name: &str, size: u64) -> CacheEntry {
    CacheEntry {
        local_file: name.to_string(),
        etag: Some("\"v1\"".to_string()),
        last_modified: None,
        last_validated: "2024-05-01T12:00:00Z".to_string(),
        file_size: size,
        content_type: Some("audio/wav".to_string()),
    }
}

#[test]
fn test_cache_filename_ignores_query_for_extension() {
    let name = DiskCache::cache_filename_for_url("http://example.com/sound.mp3?sig=abc.def");
    assert!(name.ends_with(".mp3"), "got: {}", name);

    let a = DiskCache::cache_filename_for_url("http://example.com/sound.mp3?v=1");
    let b = DiskCache::cache_filename_for_url("http://example.com/sound.mp3?v=2");
    assert_ne!(a, b);
}

#[test]
fn test_cache_filename_generation() {
    let url1 = "http://example.com/sound.wav";
    let url2 = "http://example.com/sound.mp3";
    let url3 = "http://other.com/sound.wav";

    let name1 = DiskCache::cache_filename_for_url(url1);
    let name2 = DiskCache::cache_filename_for_url(url2);
    let name3 = DiskCache::cache_filename_for_url(url3);

    assert_eq!(name1, "5acc8be08cc8.wav");
    assert_eq!(name2, "4271e79bbe75.mp3");
    assert_eq!(name3, "4045c088839e.wav");

    assert_ne!(name1, name2);
    assert_ne!(name1, name3);

    assert!(name1.ends_with(".wav"));
    assert!(name2.ends_with(".mp3"));
    assert!(name3.ends_with(".wav"));

    let name1_again = DiskCache::cache_filename_for_url(url1);
    assert_eq!(name1, name1_again);
}

#[test]
fn unknown_extension_is_stored_as_dat() {
    let name = DiskCache::cache_filename_for_url("http://example.com/stream");
    assert!(name.ends_with(".dat"), "got: {}", name);
    assert_eq!(name.len(), 12 + 4);
}

#[test]
fn test_add_and_get_entry() {
    let mut cache = DiskCache::new("/var/cache/mqttaudio".to_string(), None);
    let url = "http://example.com/test.wav";
    cache.put_entry(url.to_string(), entry("abc.wav", 1024));

    let got = cache.get_entry(url).unwrap();
    assert_eq!(got.local_file, "abc.wav");
    assert_eq!(got.file_size, 1024);
    assert_eq!(cache.entry_count(), 1);
    assert_eq!(cache.total_size_bytes(), 1024);
    assert_eq!(cache.cached_urls(), vec![url.to_string()]);
    assert_eq!(cache.files_dir(), "/var/cache/mqttaudio/files");
    assert_eq!(cache.get_cached_file_path(got), "/var/cache/mqttaudio/files/abc.wav");
}

#[test]
fn is_cached_needs_the_recorded_length_on_disk() {
    let mut cache = DiskCache::new("/c".to_string(), None);
    cache.put_entry("http://x/a.wav".to_string(), entry("a.wav", 100));
    assert!(cache.is_cached("http://x/a.wav", Some(100)));
    assert!(!cache.is_cached("http://x/a.wav", Some(99)));
    assert!(!cache.is_cached("http://x/a.wav", None));
    assert!(!cache.is_cached("http://x/b.wav", Some(100)));
}

#[test]
fn remove_and_clear_empty_the_index() {
    let mut cache = DiskCache::new("/c".to_string(), None);
    cache.put_entry("u1".to_string(), entry("1.wav", 1));
    cache.put_entry("u2".to_string(), entry("2.wav", 2));
    let removed = cache.remove_entry("u1").unwrap();
    assert_eq!(removed.local_file, "1.wav");
    assert!(cache.remove_entry("u1").is_none());
    assert_eq!(cache.entry_count(), 1);
    cache.clear_all();
    assert_eq!(cache.entry_count(), 0);
    assert_eq!(cache.total_size_bytes(), 0);
}

#[test]
fn metadata_of_another_version_is_discarded() {
    let mut old = CacheMetadata::with_version(CACHE_METADATA_VERSION - 1);
    old.insert("u".to_string(), entry("a.wav", 5));
    let cache = DiskCache::new("/c".to_string(), Some(old));
    assert_eq!(cache.entry_count(), 0);

    let mut current = CacheMetadata::new();
    current.insert("u".to_string(), entry("a.wav", 5));
    let cache = DiskCache::new("/c".to_string(), Some(current));
    assert_eq!(cache.entry_count(), 1);
    assert_eq!(cache.metadata().version(), CACHE_METADATA_VERSION);
}

#[test]
fn windowed_persist_paths_share_the_cache_file_name() {
    let cache = DiskCache::new("/c".to_string(), None);
    let (temp, fin) = cache.windowed_persist_paths("http://example.com/sound.wav", 7);
    assert_eq!(fin, "/c/files/5acc8be08cc8.wav");
    assert!(temp.starts_with("/c/files/"));
    assert_ne!(temp, fin);
}

#[test]
fn test_cache_filename_is_stable_across_processes() {
    let name = DiskCache::cache_filename_for_url("http://example.com/sound.wav");
    let digest = Sha256::digest("http://example.com/sound.wav".as_bytes());
    let expected_prefix: String = digest
        .iter()
        .take(6)
        .map(|b| format!("{:02x}", b))
        .collect();
    assert_eq!(name, format!("{}.wav", expected_prefix));
}

// 2024-05-01T12:00:00Z in Unix milliseconds.
const VALIDATED_MS: i64 = 1_714_564_800_000;

#[test]
fn revalidation_is_due_only_after_the_window() {
    let mut cache = DiskCache::new("/var/cache/mqttaudio".to_string(), None);
    let url = "http://example.com/test.wav";
    cache.put_entry(url.to_string(), entry("5acc8be08cc8.wav", 10));
    assert!(cache.revalidation_request(url, 300_000, VALIDATED_MS + 100_000, 1).is_none());
    let req = cache.revalidation_request(url, 300_000, VALIDATED_MS + 400_000, 1).unwrap();
    assert_eq!(req.url(), url);
    assert_eq!(req.etag, Some("\"v1\"".to_string()));
    assert_eq!(req.local_file, DiskCache::cache_filename_for_url(url));
    assert!(req.cache_path.ends_with(&req.local_file));
    assert!(cache.revalidation_request("http://example.com/other.wav", 300_000, VALIDATED_MS + 400_000, 1).is_none());
}

#[test]
fn a_failed_revalidation_waits_a_window_before_retrying() {
    let mut cache = DiskCache::new("/var/cache/mqttaudio".to_string(), None);
    let url = "http://example.com/test.wav";
    cache.put_entry(url.to_string(), entry("5acc8be08cc8.wav", 10));
    let failed_at = VALIDATED_MS + 400_000;
    let changed = cache.record_revalidation(url, &Revalidation::Failed, "2024-05-01T12:06:40Z".to_string(), failed_at);
    assert!(!changed);
    assert!(cache.revalidation_request(url, 300_000, failed_at + 1_000, 1).is_none());
    assert!(cache.revalidation_request(url, 300_000, failed_at + 300_000, 1).is_some());
}

#[test]
fn a_current_copy_restarts_its_age_and_a_changed_one_takes_new_validators() {
    let mut cache = DiskCache::new("/var/cache/mqttaudio".to_string(), None);
    let url = "http://example.com/test.wav";
    cache.put_entry(url.to_string(), entry("5acc8be08cc8.wav", 10));
    let changed = cache.record_revalidation(url, &Revalidation::Current, "2024-05-02T00:00:00Z".to_string(), 0);
    assert!(!changed);
    let e = cache.get_entry(url).unwrap();
    assert_eq!(e.last_validated, "2024-05-02T00:00:00Z");
    assert_eq!(e.etag, Some("\"v1\"".to_string()));
    assert_eq!(e.file_size, 10);

    let result = Revalidation::Changed {
        local_file: "5acc8be08cc8.wav".to_string(),
        etag: Some("\"v2\"".to_string()),
        last_modified: None,
        content_type: Some("audio/wav".to_string()),
        file_size: 20,
    };
    assert!(cache.record_revalidation(url, &result, "2024-05-03T00:00:00Z".to_string(), 0));
    let e = cache.get_entry(url).unwrap();
    assert_eq!(e.etag, Some("\"v2\"".to_string()));
    assert_eq!(e.file_size, 20);
    assert_eq!(e.last_validated, "2024-05-03T00:00:00Z");
}

#[test]
fn a_zero_window_always_asks_the_server() {
    let mut cache = DiskCache::new("/var/cache/mqttaudio".to_string(), None);
    let url = "http://example.com/test.wav";
    assert!(cache.revalidation_request(url, 0, VALIDATED_MS, 1).is_none());
    cache.put_entry(url.to_string(), entry("5acc8be08cc8.wav", 10));
    let req = cache.revalidation_request(url, 0, VALIDATED_MS, 1).unwrap();
    assert_eq!(req.url(), url);
    assert_eq!(req.etag, Some("\"v1\"".to_string()));
}

#[test]
fn each_sequence_number_gets_its_own_temp_file() {
    let cache = DiskCache::new("/c".to_string(), None);
    let (t7, f7) = cache.windowed_persist_paths("http://example.com/sound.wav", 7);
    let (t8, f8) = cache.windowed_persist_paths("http://example.com/sound.wav", 8);
    let (t70, _) = cache.windowed_persist_paths("http://example.com/sound.wav", 70);
    assert_eq!(f7, f8);
    assert_eq!(t7, "/c/files/5acc8be08cc8.wav.7.streaming.tmp");
    assert_ne!(t7, t8);
    assert_ne!(t7, t70);
}

#[test]
fn a_teed_download_is_recorded_with_all_its_metadata() {
    let mut cache = DiskCache::new("/c".to_string(), None);
    let url = "http://example.com/sound.wav";
    cache.record_streamed_download(
        url,
        42,
        Some("\"e\"".to_string()),
        Some("Wed, 01 May 2024 12:00:00 GMT".to_string()),
        Some("audio/wav".to_string()),
        "2024-05-01T12:00:00Z".to_string(),
    );
    let e = cache.get_entry(url).unwrap();
    assert_eq!(e.local_file, "5acc8be08cc8.wav");
    assert_eq!(e.file_size, 42);
    assert_eq!(e.last_modified.as_deref(), Some("Wed, 01 May 2024 12:00:00 GMT"));
    assert_eq!(e.content_type.as_deref(), Some("audio/wav"));
    assert_eq!(e.last_validated, "2024-05-01T12:00:00Z");
}

#[test]
fn file_names_come_from_the_digest_and_the_path_extension() {
    let digest = vec![0xde, 0xad, 0xbe, 0xef, 0x01, 0x02, 0xff, 0x00];
    assert_eq!(DiskCache::cache_filename_from_digest(&digest, "http://x/a.MP3?sig=1.wav"), "deadbeef0102.mp3");
    assert_eq!(DiskCache::cache_filename_from_digest(&digest[..2].to_vec(), "http://x/stream"), "dead.dat");
    let url = "http://example.com/sound.wav";
    let full: Vec<u8> = Sha256::digest(url.as_bytes()).to_vec();
    assert_eq!(DiskCache::cache_filename_from_digest(&full, url), DiskCache::cache_filename_for_url(url));
}
