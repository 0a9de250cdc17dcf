use jmdict_fast::install::resolved_cache_dir;

#[test]
fn resolved_cache_dir_returns_path_on_desktop() {
    // No directory registered: the platform default of a desktop system.
    let desktop = dirs::cache_dir().map(|p| p.to_string_lossy().into_owned());
    let dir = resolved_cache_dir(&None, "linux", "x86_64", desktop)
        .expect("desktop should have a default cache dir");
    assert!(
        std::path::Path::new(&dir).is_absolute(),
        "cache dir should be absolute, got {dir:?}"
    );
}
