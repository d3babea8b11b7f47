//! A verified query-and-selection engine for a plain-text bookmark
//! collection.
//!
//! Records are tag-labelled text files.  The library filters a candidate
//! set of records by a boolean tag query (delegated to an external
//! matcher) and a title substring query, assigns stable indices to the
//! result, parses free-form numeric selections back into records, and
//! composes new record bodies from structured fields.

pub mod args;
pub mod chars;
pub mod compose;
pub mod query;
pub mod record;
pub mod selection;
pub mod slug;
pub mod subseq;
pub mod title;
