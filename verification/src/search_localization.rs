//! Text lookup for the search views, which ship no catalog of their own.

use vstd::prelude::*;

verus! {

/// The text of `key` for the search views: always `fallback`, as these views have no
/// catalog entries.
pub fn text_for_app_or(key: &str, fallback: &str) -> (r: String)
    ensures
        r@ == fallback@,
{
    fallback.to_string()
}

} // verus!
