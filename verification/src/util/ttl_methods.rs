//! Lifetime constants of the lifetime helpers.
use vstd::prelude::*;

verus! {

/// Lifetime meaning "never expires".
pub const NEVER_EXPIRE: i64 = -1;
/// Default token lifetime of the lifetime helpers (7 days).
pub const DEFAULT_TIMEOUT: i64 = 60 * 60 * 24 * 7;

/// Lifetime helpers.
pub struct SaTtlMethods;

impl SaTtlMethods {
    /// Lifetime meaning "never expires".
    pub const NEVER_EXPIRE: i64 = -1;
    /// Default token lifetime (7 days).
    pub const DEFAULT_TIMEOUT: i64 = 604800;
}

} // verus!
