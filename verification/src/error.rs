//! The library's error type, with a stable numeric code per variant.
use vstd::prelude::*;

use crate::text::{decimal, decimal_text, push_chars};

verus! {

/// `std::io::Error`, carried opaquely by [`JmdictError::IoError`].
#[verifier::external_type_specification]
#[verifier::external_body]
pub struct ExIoError(std::io::Error);

/// Typed error enum for jmdict-fast, suitable for FFI consumers.
#[derive(Debug)]
pub enum JmdictError {
    /// Data files not found at the expected path.
    DataNotFound,
    /// Binary format version mismatch between data and library.
    DataVersionMismatch { expected: u32, found: u32 },
    /// Data files are corrupted or have an invalid format.
    DataCorrupted,
    /// The query was invalid (e.g., empty string).
    InvalidQuery,
    /// An I/O error occurred while reading data files.
    IoError(std::io::Error),
    /// Failed to deserialize entry data.
    DeserializationError,
    /// No cache directory can be chosen on this platform: the host must
    /// provide one.
    CacheDirRequired { platform: String },
    /// The process-wide cache directory was already set.
    CacheDirAlreadySet,
    /// A download failed or was refused.
    NetworkError(String),
}

/// The numeric code of each variant.
pub open spec fn error_code(e: &JmdictError) -> u32 {
    match e {
        JmdictError::DataNotFound => 1,
        JmdictError::DataVersionMismatch { .. } => 2,
        JmdictError::DataCorrupted => 3,
        JmdictError::InvalidQuery => 4,
        JmdictError::IoError(_) => 5,
        JmdictError::DeserializationError => 6,
        JmdictError::CacheDirRequired { .. } => 7,
        JmdictError::CacheDirAlreadySet => 8,
        JmdictError::NetworkError(_) => 9,
    }
}

/// Whether `std::io::Error::kind` of `e` is `ErrorKind::NotFound`. What
/// kind an error has is not visible here, so nothing is promised of the
/// answer.
#[verifier::external_body]
fn io_error_is_not_found(e: &std::io::Error) -> bool {
    e.kind() == std::io::ErrorKind::NotFound
}

/// The `Display` text of an `std::io::Error`. The error is opaque here, so
/// nothing is promised of the text.
#[verifier::external_body]
fn io_error_text(e: &std::io::Error) -> String {
    format!("{}", e)
}

/// The message of every variant but the I/O error, whose text comes from
/// the error it carries.
pub open spec fn error_message(e: &JmdictError) -> Seq<char> {
    match e {
        JmdictError::DataNotFound => "Dictionary data files not found. Run `cargo xtask generate` or set JMDICT_DATA env var."@,
        JmdictError::DataVersionMismatch { expected, found } => "Data format version "@ + decimal_text(
            *found as nat,
        ) + ", library expects "@ + decimal_text(*expected as nat)
            + ". Regenerate with cargo xtask generate."@,
        JmdictError::DataCorrupted => "Dictionary data is corrupted or has an invalid format."@,
        JmdictError::InvalidQuery => "The search query is invalid."@,
        JmdictError::IoError(_) => "I/O error: "@,
        JmdictError::DeserializationError => "Failed to deserialize dictionary entry data."@,
        JmdictError::CacheDirRequired { platform } => "No cache directory is available on "@
            + platform@ + "; provide one with init_sdk_cache_dir or InstallOptions::cache_dir."@,
        JmdictError::CacheDirAlreadySet => "The cache directory has already been set."@,
        JmdictError::NetworkError(message) => "Network error: "@ + message@,
    }
}

impl JmdictError {
    /// Returns a stable numeric code for each error variant, useful for FFI.
    pub fn code(&self) -> (r: u32)
        ensures
            r == error_code(self),
    {
        match self {
            JmdictError::DataNotFound => 1,
            JmdictError::DataVersionMismatch { .. } => 2,
            JmdictError::DataCorrupted => 3,
            JmdictError::InvalidQuery => 4,
            JmdictError::IoError(_) => 5,
            JmdictError::DeserializationError => 6,
            JmdictError::CacheDirRequired { .. } => 7,
            JmdictError::CacheDirAlreadySet => 8,
            JmdictError::NetworkError(_) => 9,
        }
    }

    /// The human-readable message of this error. For an I/O error it is
    /// `"I/O error: "` followed by the I/O error's own text.
    pub fn message(&self) -> (r: String)
        ensures
            !(self is IoError) ==> r@ == error_message(self),
            self is IoError ==> r@.take(11) == error_message(self),
    {
        proof {
            reveal_strlit("Dictionary data files not found. Run `cargo xtask generate` or set JMDICT_DATA env var.");
            reveal_strlit("Data format version ");
            reveal_strlit(", library expects ");
            reveal_strlit(". Regenerate with cargo xtask generate.");
            reveal_strlit("Dictionary data is corrupted or has an invalid format.");
            reveal_strlit("The search query is invalid.");
            reveal_strlit("I/O error: ");
            reveal_strlit("Failed to deserialize dictionary entry data.");
            reveal_strlit("No cache directory is available on ");
            reveal_strlit("; provide one with init_sdk_cache_dir or InstallOptions::cache_dir.");
            reveal_strlit("The cache directory has already been set.");
            reveal_strlit("Network error: ");
        }
        match self {
            JmdictError::DataNotFound => {
                "Dictionary data files not found. Run `cargo xtask generate` or set JMDICT_DATA env var.".to_string()
            },
            JmdictError::DataVersionMismatch { expected, found } => {
                let mut s = "Data format version ".to_string();
                push_text(&mut s, decimal(*found).as_str());
                push_text(&mut s, ", library expects ");
                push_text(&mut s, decimal(*expected).as_str());
                push_text(&mut s, ". Regenerate with cargo xtask generate.");
                s
            },
            JmdictError::DataCorrupted => {
                "Dictionary data is corrupted or has an invalid format.".to_string()
            },
            JmdictError::InvalidQuery => "The search query is invalid.".to_string(),
            JmdictError::IoError(err) => {
                let mut s = "I/O error: ".to_string();
                let detail = io_error_text(err);
                push_text(&mut s, detail.as_str());
                s
            },
            JmdictError::DeserializationError => {
                "Failed to deserialize dictionary entry data.".to_string()
            },
            JmdictError::CacheDirRequired { platform } => {
                let mut s = "No cache directory is available on ".to_string();
                push_text(&mut s, platform.as_str());
                push_text(
                    &mut s,
                    "; provide one with init_sdk_cache_dir or InstallOptions::cache_dir.",
                );
                s
            },
            JmdictError::CacheDirAlreadySet => "The cache directory has already been set.".to_string(),
            JmdictError::NetworkError(message) => {
                let mut s = "Network error: ".to_string();
                push_text(&mut s, message.as_str());
                s
            },
        }
    }

    /// The error for a failed I/O operation: a missing file means the data
    /// was not found; any other failure is carried as an I/O error. Which
    /// it is depends on the error's kind, which is opaque here; what each
    /// kind gives is stated by [`JmdictError::from_io_kind`].
    pub fn from_io(err: std::io::Error) -> (r: JmdictError)
        ensures
            r is DataNotFound || r == JmdictError::IoError(err),
    {
        let not_found = io_error_is_not_found(&err);
        JmdictError::from_io_kind(err, not_found)
    }

    /// The error for a failed I/O operation whose kind is known: with
    /// `not_found` (the error's kind is `NotFound`) the data was not found;
    /// otherwise the I/O error is carried as it is.
    pub fn from_io_kind(err: std::io::Error, not_found: bool) -> (r: JmdictError)
        ensures
            not_found ==> r is DataNotFound,
            !not_found ==> r == JmdictError::IoError(err),
    {
        if not_found {
            JmdictError::DataNotFound
        } else {
            JmdictError::IoError(err)
        }
    }
}

/// Appends the characters of `t` to `s`.
fn push_text(s: &mut String, t: &str)
    ensures
        final(s)@ == old(s)@ + t@,
{
    let chars = crate::text::chars_of(t);
    push_chars(s, chars.as_slice());
}

} // verus!
