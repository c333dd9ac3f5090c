//! The response shape for listing tags.

use vstd::prelude::*;

verus! {

/// The distinct tags across all articles.
pub struct TagsResponse {
    pub tags: Vec<String>,
}

} // verus!
