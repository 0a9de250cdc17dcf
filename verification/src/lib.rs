//! Japanese dictionary lookups over a compact on-disk format: kana and
//! romaji conversion, deinflection of conjugated forms back to dictionary
//! forms, the entry blob format, the FST-indexed dictionary with its match
//! candidates and query filters, and the decisions of data caching and
//! installation.
use vstd::prelude::*;

pub mod blob;
pub mod cache;
pub mod candidates;
pub mod deinflect_laws;
pub mod deinflect_model;
pub mod deinflect_rules;
pub mod deinflect_termination;
pub mod deinflector;
pub mod dict;
pub mod error;
pub mod index;
pub mod install;
pub mod kana;
pub mod kana_table;
pub mod kanji;
pub mod model;
pub mod query;
pub mod text;

verus! {

} // verus!
