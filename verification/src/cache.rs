//! Caching of downloaded data files with version tracking: the decisions of
//! the cache, taken on what was found on disk.
use vstd::prelude::*;

use crate::text::same_text;

verus! {

/// Configuration for the caching system
#[derive(Debug, Clone)]
pub struct CacheConfig {
    pub cache_file_name: String,
    pub version_file_name: String,
    pub current_version: String,
}

/// Represents the current status of the cache
#[derive(Debug, Clone, Copy, PartialEq, Eq, Structural)]
pub enum CacheStatus {
    /// Cache file doesn't exist
    NotFound,
    /// Cache exists but no version file
    NoVersion,
    /// Cache is valid and up to date
    Valid,
    /// Cache exists but version is outdated
    Outdated,
    /// Cache files are corrupted
    Corrupted,
}

/// Whether `c` has the Unicode `White_Space` property, which is what
/// `char::is_whitespace` tests.
pub open spec fn is_white_space(c: char) -> bool {
    let u = c as u32;
    ||| 0x9 <= u <= 0xD
    ||| u == 0x20
    ||| u == 0x85
    ||| u == 0xA0
    ||| u == 0x1680
    ||| 0x2000 <= u <= 0x200A
    ||| u == 0x2028
    ||| u == 0x2029
    ||| u == 0x202F
    ||| u == 0x205F
    ||| u == 0x3000
}

/// `s` without its leading white space.
pub open spec fn trim_start(s: Seq<char>) -> Seq<char>
    decreases s.len(),
{
    if s.len() > 0 && is_white_space(s[0]) {
        trim_start(s.drop_first())
    } else {
        s
    }
}

/// `s` without its trailing white space.
pub open spec fn trim_end(s: Seq<char>) -> Seq<char>
    decreases s.len(),
{
    if s.len() > 0 && is_white_space(s.last()) {
        trim_end(s.drop_last())
    } else {
        s
    }
}

/// `s` without leading and trailing white space.
pub open spec fn trimmed(s: Seq<char>) -> Seq<char> {
    trim_end(trim_start(s))
}

/// `str::trim` from std: `s` without leading and trailing white space, as
/// `char::is_whitespace` (the Unicode `White_Space` property) defines it.
#[verifier::external_body]
fn trim(s: &str) -> (r: &str)
    ensures
        r@ == trimmed(s@),
{
    s.trim()
}

/// The status of the cache, given whether the cache file and the version
/// file exist and what the version file holds (`None` when it could not be
/// read).
pub open spec fn status_of(
    current_version: Seq<char>,
    cache_exists: bool,
    version_exists: bool,
    cached_version: Option<Seq<char>>,
) -> CacheStatus {
    if !cache_exists {
        CacheStatus::NotFound
    } else if !version_exists {
        CacheStatus::NoVersion
    } else {
        match cached_version {
            Some(v) => if trimmed(v) == current_version {
                CacheStatus::Valid
            } else {
                CacheStatus::Outdated
            },
            None => CacheStatus::Corrupted,
        }
    }
}

/// The text of an optional borrowed string.
pub open spec fn opt_view(o: Option<&str>) -> Option<Seq<char>> {
    match o {
        Some(s) => Some(s@),
        None => None,
    }
}

/// The message of each status.
pub open spec fn status_text(s: CacheStatus) -> Seq<char> {
    match s {
        CacheStatus::NotFound => "Cache not found"@,
        CacheStatus::NoVersion => "Cache exists but no version file"@,
        CacheStatus::Valid => "Cache is valid"@,
        CacheStatus::Outdated => "Cache is outdated"@,
        CacheStatus::Corrupted => "Cache is corrupted"@,
    }
}

impl CacheStatus {
    /// The human-readable description of the status.
    pub fn to_string(&self) -> (r: String)
        ensures
            r@ == status_text(*self),
    {
        match self {
            CacheStatus::NotFound => "Cache not found".to_string(),
            CacheStatus::NoVersion => "Cache exists but no version file".to_string(),
            CacheStatus::Valid => "Cache is valid".to_string(),
            CacheStatus::Outdated => "Cache is outdated".to_string(),
            CacheStatus::Corrupted => "Cache is corrupted".to_string(),
        }
    }
}

impl CacheConfig {
    /// Create a new cache configuration
    pub fn new(cache_file_name: &str, version_file_name: &str, current_version: &str) -> (r: Self)
        ensures
            r.cache_file_name@ == cache_file_name@,
            r.version_file_name@ == version_file_name@,
            r.current_version@ == current_version@,
    {
        Self {
            cache_file_name: cache_file_name.to_string(),
            version_file_name: version_file_name.to_string(),
            current_version: current_version.to_string(),
        }
    }

    /// The status of the cache: missing cache file, missing version file,
    /// unreadable version file (`cached_version` is `None`), or a version
    /// that (trimmed) is or is not the current one.
    pub fn status(&self, cache_exists: bool, version_exists: bool, cached_version: Option<&str>) -> (r:
        CacheStatus)
        ensures
            r == status_of(self.current_version@, cache_exists, version_exists, opt_view(cached_version)),
    {
        if !cache_exists {
            return CacheStatus::NotFound;
        }
        if !version_exists {
            return CacheStatus::NoVersion;
        }
        match cached_version {
            Some(v) => {
                if same_text(trim(v), self.current_version.as_str()) {
                    CacheStatus::Valid
                } else {
                    CacheStatus::Outdated
                }
            },
            None => CacheStatus::Corrupted,
        }
    }

    /// Whether the data must be downloaded: unless both files exist and the
    /// version file holds the current version (surrounding white space
    /// aside), it must.
    pub fn should_download(
        &self,
        cache_exists: bool,
        version_exists: bool,
        cached_version: Option<&str>,
    ) -> (r: bool)
        ensures
            r == !(cache_exists && version_exists && match opt_view(cached_version) {
                Some(v) => trimmed(v) == self.current_version@,
                None => false,
            }),
    {
        if cache_exists && version_exists {
            match cached_version {
                Some(v) => !same_text(trim(v), self.current_version.as_str()),
                None => true,
            }
        } else {
            true
        }
    }
}

/// A download is needed exactly when the cache is not valid.
pub proof fn lemma_download_iff_not_valid(
    current_version: Seq<char>,
    cache_exists: bool,
    version_exists: bool,
    cached_version: Option<Seq<char>>,
)
    ensures
        !(cache_exists && version_exists && match cached_version {
            Some(v) => trimmed(v) == current_version,
            None => false,
        }) == (status_of(current_version, cache_exists, version_exists, cached_version)
            != CacheStatus::Valid),
{
}

} // verus!
