use jmdict_fast::error::JmdictError;
use jmdict_fast::install::{
    check_download_size, check_extracted, default_data_url, entry_action, init_sdk_cache_dir,
    install_complete, install_subdir, plan_install, platform_default, required_files,
    resolved_cache_dir, EntryAction, InstallStep,
};

#[test]
fn default_url_names_the_release_tarball() {
    assert_eq!(
        default_data_url(),
        "https://github.com/theGlenn/jmdict-fst/releases/download/jmdict-fast-v0.1.4/jmdict-data-jmdict3.6.1-fmt4.tar.gz"
    );
}

#[test]
fn install_subdir_is_keyed_on_format_and_version() {
    assert_eq!(install_subdir(), vec!["jmdict-fast", "fmt4", "3.6.1"]);
}

#[test]
fn required_files_are_the_seven_runtime_files() {
    assert_eq!(
        required_files(),
        vec![
            "entries.bin",
            "kana.fst",
            "kanji.fst",
            "romaji.fst",
            "id.fst",
            "gloss.fst",
            "gloss_postings.bin"
        ]
    );
    assert!(install_complete(&[true; 7]));
    assert!(!install_complete(&[true, true, true, false, true, true, true]));
    assert!(install_complete(&[]));
}

#[test]
fn install_plan() {
    assert_eq!(plan_install(false, true, true), InstallStep::Load);
    assert_eq!(plan_install(false, false, false), InstallStep::Extract { wipe_first: false });
    assert_eq!(plan_install(false, false, true), InstallStep::Extract { wipe_first: false });
    assert_eq!(plan_install(true, true, true), InstallStep::Extract { wipe_first: true });
    assert_eq!(plan_install(true, false, false), InstallStep::Extract { wipe_first: false });
    assert!(check_extracted(true).is_ok());
    assert!(matches!(check_extracted(false), Err(JmdictError::DataCorrupted)));
}

#[test]
fn first_cache_dir_registration_wins() {
    let mut slot: Option<String> = None;
    assert!(init_sdk_cache_dir(&mut slot, "/data/a".to_string()).is_ok());
    assert!(matches!(
        init_sdk_cache_dir(&mut slot, "/data/b".to_string()),
        Err(JmdictError::CacheDirAlreadySet)
    ));
    assert_eq!(slot.as_deref(), Some("/data/a"));
    let dir = resolved_cache_dir(&slot, "ios", "aarch64", None).unwrap();
    assert_eq!(dir, "/data/a");
}

#[test]
fn sandboxed_platforms_need_a_cache_dir() {
    for (os, arch, expected) in [
        ("ios", "aarch64", "ios"),
        ("android", "aarch64", "android"),
        ("unknown", "wasm32", "wasm"),
        ("freebsd", "x86_64", "freebsd"),
    ] {
        match platform_default(os, arch, Some("/home/u/.cache".to_string())) {
            Err(JmdictError::CacheDirRequired { platform }) => assert_eq!(platform, expected),
            other => panic!("expected CacheDirRequired for {os}, got {other:?}"),
        }
    }
    assert_eq!(
        platform_default("macos", "aarch64", Some("/Users/u/Library/Caches".to_string())).unwrap(),
        "/Users/u/Library/Caches"
    );
    assert!(matches!(
        platform_default("linux", "x86_64", None),
        Err(JmdictError::CacheDirRequired { .. })
    ));
}

#[test]
fn download_size_limit() {
    assert!(check_download_size(52428800).is_ok());
    match check_download_size(52428801) {
        Err(JmdictError::NetworkError(m)) => assert_eq!(m, "tarball exceeds 52428800 byte limit"),
        other => panic!("expected a network error, got {other:?}"),
    }
}

#[test]
fn archive_entries_are_filtered_by_name_and_size() {
    assert_eq!(entry_action(Some("entries.bin"), 1).unwrap(), EntryAction::Write);
    assert_eq!(entry_action(Some("README.md"), 1).unwrap(), EntryAction::Skip);
    assert_eq!(entry_action(None, 1).unwrap(), EntryAction::Skip);
    assert_eq!(entry_action(Some("README.md"), u64::MAX).unwrap(), EntryAction::Skip);
    assert!(matches!(
        entry_action(Some("kana.fst"), 52428801),
        Err(JmdictError::DataCorrupted)
    ));
}
