use appiman::cache::MetadataCache;

#[test]
fn cache_file_lives_under_the_cache_directory() {
    let cache = MetadataCache::new("/opt/applications/raw/.cache");
    assert_eq!(
        cache.cache_file,
        "/opt/applications/raw/.cache/metadata_cache.json"
    );
    assert_eq!(cache.len(), 0);
}

#[test]
fn add_entry_upserts_by_path() {
    let mut cache = MetadataCache::new("/tmp/.cache");
    cache.add_entry("/raw/A.AppImage", "c1".to_string(), 1, "a".to_string(), "1.0".to_string());
    cache.add_entry("/raw/B.AppImage", "c2".to_string(), 2, "b".to_string(), "1.0".to_string());
    assert_eq!(cache.len(), 2);

    cache.add_entry("/raw/A.AppImage", "c3".to_string(), 3, "a".to_string(), "2.0".to_string());
    assert_eq!(cache.len(), 2);

    let entry = cache.get_cached_entry("/raw/A.AppImage").unwrap();
    assert_eq!(entry.checksum, "c3");
    assert_eq!(entry.version, "2.0");
    assert!(cache.is_cached("/raw/A.AppImage", "c3"));
    assert!(!cache.is_cached("/raw/A.AppImage", "c1"));
    assert!(!cache.is_cached("/raw/C.AppImage", "c1"));
}

#[test]
fn cleanup_stale_entries_drops_missing_paths() {
    let mut cache = MetadataCache::new("/tmp/.cache");
    cache.add_entry("/raw/A.AppImage", "c1".to_string(), 1, "a".to_string(), "1.0".to_string());
    cache.add_entry("/raw/B.AppImage", "c2".to_string(), 2, "b".to_string(), "1.0".to_string());

    let missing = vec!["/raw/A.AppImage".to_string()];
    cache.cleanup_stale_entries(&missing);

    assert_eq!(cache.len(), 1);
    assert!(cache.get_cached_entry("/raw/A.AppImage").is_none());
    assert!(cache.get_cached_entry("/raw/B.AppImage").is_some());

    let keys = cache.keys();
    assert_eq!(keys, vec!["/raw/B.AppImage".to_string()]);

    cache.clear();
    assert_eq!(cache.len(), 0);
}
