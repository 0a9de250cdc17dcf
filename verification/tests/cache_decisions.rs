use jmdict_fast::cache::{CacheConfig, CacheStatus};

fn config() -> CacheConfig {
    CacheConfig::new("data.json", "data.version", "3.6.1")
}

#[test]
fn cache_status_cases() {
    let c = config();
    assert_eq!(c.status(false, true, Some("3.6.1")), CacheStatus::NotFound);
    assert_eq!(c.status(true, false, None), CacheStatus::NoVersion);
    assert_eq!(c.status(true, true, Some("3.6.1")), CacheStatus::Valid);
    assert_eq!(c.status(true, true, Some("  3.6.1\n")), CacheStatus::Valid);
    assert_eq!(c.status(true, true, Some("3.6.0")), CacheStatus::Outdated);
    assert_eq!(c.status(true, true, None), CacheStatus::Corrupted);
}

#[test]
fn download_needed_exactly_when_cache_not_valid() {
    let c = config();
    let cases: Vec<(bool, bool, Option<&str>)> = vec![
        (false, false, None),
        (false, true, Some("3.6.1")),
        (true, false, None),
        (true, true, Some("3.6.1\n")),
        (true, true, Some("2.0")),
        (true, true, None),
    ];
    for (cache, version, read) in cases {
        assert_eq!(
            c.should_download(cache, version, read),
            c.status(cache, version, read) != CacheStatus::Valid
        );
    }
    assert!(!c.should_download(true, true, Some("3.6.1")));
}

#[test]
fn every_status_has_its_message() {
    assert_eq!(CacheStatus::NoVersion.to_string(), "Cache exists but no version file");
    assert_eq!(CacheStatus::Corrupted.to_string(), "Cache is corrupted");
}

#[test]
fn unicode_white_space_around_the_version_is_ignored() {
    let c = config();
    assert_eq!(c.status(true, true, Some("\u{3000}3.6.1\u{a0}\t")), CacheStatus::Valid);
    assert_eq!(c.status(true, true, Some("3.6.\u{3000}1")), CacheStatus::Outdated);
}
