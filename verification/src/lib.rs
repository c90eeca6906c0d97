//! A picker engine for user-created bookmarks: an ordered store of bookmark
//! records and a selection state machine that keeps a ranked fuzzy-match list
//! in step with the store across queries, deletions, and asynchronous
//! re-scoring.

pub mod matching;
pub mod picker;
pub mod query;
pub mod store;
