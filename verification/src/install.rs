//! Installing the dictionary data on first use: where it comes from, where
//! it goes, and the decisions of an install. The downloads, the archive
//! and the file system are the caller's; this module decides.
use vstd::prelude::*;

use crate::error::JmdictError;
use crate::model::FORMAT_VERSION;
use crate::text::{decimal, decimal_text, push_chars, same_text};

verus! {

/// The version of this crate, which names the release that holds the
/// matching data tarball.
pub const CRATE_VERSION: &'static str = "0.1.4";

/// The JMdict source version the data is generated from.
pub const JMDICT_VERSION: &'static str = "3.6.1";

/// Appends the characters of `t` to `s`.
fn push_text(s: &mut String, t: &str)
    ensures
        final(s)@ == old(s)@ + t@,
{
    let chars = crate::text::chars_of(t);
    push_chars(s, chars.as_slice());
}

/// The URL of the release tarball for this crate version, JMdict version
/// and format version.
pub open spec fn data_url_text() -> Seq<char> {
    "https://github.com/theGlenn/jmdict-fst/releases/download/jmdict-fast-v"@ + CRATE_VERSION@
        + "/jmdict-data-jmdict"@ + JMDICT_VERSION@ + "-fmt"@ + decimal_text(FORMAT_VERSION as nat)
        + ".tar.gz"@
}

/// URL of the canonical release tarball this build was compiled against.
///
/// The data tarball is uploaded to the same GitHub release that publishes
/// the crate (`jmdict-fast-v<crate>`), with a filename keyed on the JMdict
/// source version and on-disk format version, so a crate installs the
/// tarball of its own release.
pub fn default_data_url() -> (r: String)
    ensures
        r@ == data_url_text(),
{
    let mut s = "https://github.com/theGlenn/jmdict-fst/releases/download/jmdict-fast-v".to_string();
    push_text(&mut s, CRATE_VERSION);
    push_text(&mut s, "/jmdict-data-jmdict");
    push_text(&mut s, JMDICT_VERSION);
    push_text(&mut s, "-fmt");
    push_text(&mut s, decimal(FORMAT_VERSION).as_str());
    push_text(&mut s, ".tar.gz");
    s
}

/// The path segments, below the cache root, of the directory where this
/// build's data lives: `jmdict-fast`, `fmt<N>`, `<jmdict-version>`. The
/// format segment keeps builds of different formats apart.
pub fn install_subdir() -> (r: Vec<String>)
    ensures
        r@.len() == 3,
        r@[0]@ == "jmdict-fast"@,
        r@[1]@ == "fmt"@ + decimal_text(FORMAT_VERSION as nat),
        r@[2]@ == JMDICT_VERSION@,
{
    let mut fmt = "fmt".to_string();
    push_text(&mut fmt, decimal(FORMAT_VERSION).as_str());
    let mut r: Vec<String> = Vec::new();
    r.push("jmdict-fast".to_string());
    r.push(fmt);
    r.push(JMDICT_VERSION.to_string());
    r
}

/// Filenames the loader expects under the install directory. A directory
/// missing any of these is treated as not-yet-installed, even if some files
/// are present (an interrupted extract).
pub fn required_files() -> (r: Vec<&'static str>)
    ensures
        r@.len() == 7,
        r@[0]@ == "entries.bin"@,
        r@[1]@ == "kana.fst"@,
        r@[2]@ == "kanji.fst"@,
        r@[3]@ == "romaji.fst"@,
        r@[4]@ == "id.fst"@,
        r@[5]@ == "gloss.fst"@,
        r@[6]@ == "gloss_postings.bin"@,
{
    let mut r: Vec<&'static str> = Vec::new();
    r.push("entries.bin");
    r.push("kana.fst");
    r.push("kanji.fst");
    r.push("romaji.fst");
    r.push("id.fst");
    r.push("gloss.fst");
    r.push("gloss_postings.bin");
    r
}

/// True iff every required file is present: `present[i]` tells whether the
/// `i`-th file of [`required_files`] exists in the install directory.
pub fn install_complete(present: &[bool]) -> (r: bool)
    ensures
        r == (forall|i: int| 0 <= i < present@.len() ==> #[trigger] present@[i]),
{
    let mut i: usize = 0;
    while i < present.len()
        invariant
            i <= present.len(),
            forall|j: int| 0 <= j < i ==> #[trigger] present@[j],
        decreases present.len() - i,
    {
        if !present[i] {
            return false;
        }
        i += 1;
    }
    true
}

/// What an install does before loading.
#[derive(Debug, Clone, Copy, PartialEq, Eq, Structural)]
pub enum InstallStep {
    /// The data is in place: load it.
    Load,
    /// Materialize the data first; with `wipe_first`, remove the old
    /// directory before.
    Extract { wipe_first: bool },
}

/// The first step of an install: a forced install or an incomplete
/// directory extracts again, and a forced one wipes an existing directory
/// first so that stale files do not linger.
pub fn plan_install(force: bool, complete: bool, target_exists: bool) -> (r: InstallStep)
    ensures
        r == (if force || !complete {
            InstallStep::Extract { wipe_first: force && target_exists }
        } else {
            InstallStep::Load
        }),
{
    if force || !complete {
        InstallStep::Extract { wipe_first: force && target_exists }
    } else {
        InstallStep::Load
    }
}

/// After extracting: a tarball that left a required file out is refused,
/// rather than loading half-installed data.
pub fn check_extracted(complete: bool) -> (r: Result<(), JmdictError>)
    ensures
        complete <==> r is Ok,
        !complete ==> r matches Err(JmdictError::DataCorrupted),
{
    if complete {
        Ok(())
    } else {
        Err(JmdictError::DataCorrupted)
    }
}

/// Register a process-global cache directory: the first call wins;
/// subsequent calls return [`JmdictError::CacheDirAlreadySet`] and leave
/// the registered directory as it was. `slot` is the process-wide
/// registration.
pub fn init_sdk_cache_dir(slot: &mut Option<String>, path: String) -> (r: Result<(), JmdictError>)
    ensures
        *old(slot) is None ==> r is Ok && *final(slot) == Some(path),
        *old(slot) is Some ==> (r matches Err(JmdictError::CacheDirAlreadySet) && *final(slot)
            == *old(slot)),
{
    match slot {
        Some(_) => Err(JmdictError::CacheDirAlreadySet),
        None => {
            *slot = Some(path);
            Ok(())
        },
    }
}

/// Whether the operating system is one where the platform cache directory
/// is writable for native code.
pub open spec fn is_desktop_os(os: Seq<char>) -> bool {
    os == "macos"@ || os == "linux"@ || os == "windows"@
}

/// The text of an optional string.
pub open spec fn opt_string(o: Option<String>) -> Option<Seq<char>> {
    match o {
        Some(s) => Some(s@),
        None => None,
    }
}

/// The platform default cache root: the platform cache directory on
/// macOS, Linux and Windows when there is one (`Ok`); otherwise the name of
/// the platform that needs the host to provide a directory (`Err`): `ios`,
/// `android`, `wasm` for WebAssembly, or the operating system's name.
pub open spec fn platform_default_choice(
    os: Seq<char>,
    arch: Seq<char>,
    desktop_cache: Option<Seq<char>>,
) -> Result<Seq<char>, Seq<char>> {
    if is_desktop_os(os) {
        match desktop_cache {
            Some(c) => Ok(c),
            None => Err(os),
        }
    } else if os == "ios"@ {
        Err("ios"@)
    } else if os == "android"@ {
        Err("android"@)
    } else if arch == "wasm32"@ {
        Err("wasm"@)
    } else {
        Err(os)
    }
}

/// Whether `r` is the platform default: the directory, or the typed error
/// naming the platform.
pub open spec fn gives_platform_default(
    r: Result<String, JmdictError>,
    os: Seq<char>,
    arch: Seq<char>,
    desktop_cache: Option<Seq<char>>,
) -> bool {
    match platform_default_choice(os, arch, desktop_cache) {
        Ok(p) => r matches Ok(q) && q@ == p,
        Err(name) => r matches Err(JmdictError::CacheDirRequired { platform }) && platform@ == name,
    }
}

/// The platform default cache root: the platform cache directory
/// (`desktop_cache`, as `dirs::cache_dir` gives it) on macOS, Linux and
/// Windows; a typed error on iOS, Android and WebAssembly, where the host
/// must provide the directory, and on any other platform.
pub fn platform_default(os: &str, arch: &str, desktop_cache: Option<String>) -> (r: Result<
    String,
    JmdictError,
>)
    ensures
        gives_platform_default(r, os@, arch@, opt_string(desktop_cache)),
{
    if same_text(os, "macos") || same_text(os, "linux") || same_text(os, "windows") {
        match desktop_cache {
            Some(p) => Ok(p),
            None => Err(JmdictError::CacheDirRequired { platform: os.to_string() }),
        }
    } else if same_text(os, "ios") {
        Err(JmdictError::CacheDirRequired { platform: "ios".to_string() })
    } else if same_text(os, "android") {
        Err(JmdictError::CacheDirRequired { platform: "android".to_string() })
    } else if same_text(arch, "wasm32") {
        Err(JmdictError::CacheDirRequired { platform: "wasm".to_string() })
    } else {
        Err(JmdictError::CacheDirRequired { platform: os.to_string() })
    }
}

/// Resolve the cache root: the registered directory if there is one,
/// otherwise the platform default.
pub fn resolved_cache_dir(
    registered: &Option<String>,
    os: &str,
    arch: &str,
    desktop_cache: Option<String>,
) -> (r: Result<String, JmdictError>)
    ensures
        registered is Some ==> (r matches Ok(p) && Some(p) == *registered),
        registered is None ==> gives_platform_default(r, os@, arch@, opt_string(desktop_cache)),
{
    match registered {
        Some(p) => Ok(p.clone()),
        None => platform_default(os, arch, desktop_cache),
    }
}

/// Maximum tarball size accepted by a download (50 MB): a runaway redirect
/// or a replaced asset cannot balloon memory.
pub const MAX_DOWNLOAD_BYTES: usize = 52428800;

/// Maximum declared size of any single tar entry: a tarball cannot
/// legitimately contain a file larger than itself.
pub const MAX_ENTRY_BYTES: u64 = 52428800;

/// The message of an oversized download.
pub open spec fn oversize_text() -> Seq<char> {
    "tarball exceeds "@ + decimal_text(MAX_DOWNLOAD_BYTES as nat) + " byte limit"@
}

/// A downloaded tarball of `len` bytes is accepted up to the limit.
pub fn check_download_size(len: usize) -> (r: Result<(), JmdictError>)
    ensures
        len <= MAX_DOWNLOAD_BYTES <==> r is Ok,
        len > MAX_DOWNLOAD_BYTES ==> (r matches Err(JmdictError::NetworkError(m)) && m@
            == oversize_text()),
{
    if len > MAX_DOWNLOAD_BYTES {
        let mut m = "tarball exceeds ".to_string();
        push_text(&mut m, decimal(52428800u32).as_str());
        push_text(&mut m, " byte limit");
        return Err(JmdictError::NetworkError(m));
    }
    Ok(())
}

/// What extraction does with one archive entry.
#[derive(Debug, Clone, Copy, PartialEq, Eq, Structural)]
pub enum EntryAction {
    /// Not a required file (or no file name): leave it out.
    Skip,
    /// Write it to the install directory under its file name.
    Write,
}

/// The decision for one archive entry, by its file name (the last path
/// component, so nested layouts work and `../` cannot escape) and its
/// declared size: only required files are written, and a required file
/// declared larger than the limit refuses the whole install, before any
/// copy could truncate it.
pub fn entry_action(name: Option<&str>, size: u64) -> (r: Result<EntryAction, JmdictError>)
    ensures
        match name {
            None => r == Ok::<EntryAction, JmdictError>(EntryAction::Skip),
            Some(n) => if !is_required_file(n@) {
                r == Ok::<EntryAction, JmdictError>(EntryAction::Skip)
            } else if size > MAX_ENTRY_BYTES {
                r matches Err(JmdictError::DataCorrupted)
            } else {
                r == Ok::<EntryAction, JmdictError>(EntryAction::Write)
            },
        },
{
    match name {
        None => Ok(EntryAction::Skip),
        Some(n) => {
            let files = required_files();
            let mut k: usize = 0;
            let mut found = false;
            while k < files.len()
                invariant
                    k <= files.len(),
                    files@.len() == 7,
                    forall|i: int| 0 <= i < 7 ==> (#[trigger] files@[i])@ == required_file(i),
                    found == (exists|i: int| 0 <= i < k && (#[trigger] files@[i])@ == n@),
                decreases files.len() - k,
            {
                if same_text(files[k], n) {
                    found = true;
                }
                k += 1;
            }
            proof {
                if found {
                    let i = choose|i: int| 0 <= i < 7 && (#[trigger] files@[i])@ == n@;
                    assert(required_file(i) == n@);
                } else {
                    assert forall|i: int| 0 <= i < 7 implies required_file(i) != n@ by {
                        assert(files@[i]@ == required_file(i));
                    }
                }
            }
            if !found {
                return Ok(EntryAction::Skip);
            }
            if size > MAX_ENTRY_BYTES {
                return Err(JmdictError::DataCorrupted);
            }
            Ok(EntryAction::Write)
        },
    }
}

/// The `i`-th required file name.
pub open spec fn required_file(i: int) -> Seq<char> {
    if i == 0 {
        "entries.bin"@
    } else if i == 1 {
        "kana.fst"@
    } else if i == 2 {
        "kanji.fst"@
    } else if i == 3 {
        "romaji.fst"@
    } else if i == 4 {
        "id.fst"@
    } else if i == 5 {
        "gloss.fst"@
    } else {
        "gloss_postings.bin"@
    }
}

/// Whether `name` is one of the required file names.
pub open spec fn is_required_file(name: Seq<char>) -> bool {
    exists|i: int| 0 <= i < 7 && required_file(i) == name
}

} // verus!
