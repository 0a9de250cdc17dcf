use jmdict_fast::cache::{CacheConfig, CacheStatus};

#[test]
fn test_cache_config_new() {
    let config = CacheConfig::new("test.json", "test.version", "v1.0.0");
    assert_eq!(config.cache_file_name, "test.json");
    assert_eq!(config.version_file_name, "test.version");
    assert_eq!(config.current_version, "v1.0.0");
}

#[test]
fn test_cache_status_display() {
    assert_eq!(CacheStatus::Valid.to_string(), "Cache is valid");
    assert_eq!(CacheStatus::NotFound.to_string(), "Cache not found");
    assert_eq!(CacheStatus::Outdated.to_string(), "Cache is outdated");
}
