use vstd::prelude::*;

verus! {

/// The pattern in which every timestamp is rendered for the outside world.
pub const DATE_FORMAT: &'static str = "%Y-%m-%dT%H:%M:%S%.3fZ";

/// Length of the random suffix that is appended to a slug.
pub const SUFFIX_LEN: usize = 6;

/// How many slugs with a random suffix are tried for one title before a
/// taken slug is given up on.
pub const SLUG_ATTEMPTS: usize = 5;

/// Page size of a search or a feed when the caller names none.
pub const DEFAULT_LIMIT: i64 = 20;

} // verus!
