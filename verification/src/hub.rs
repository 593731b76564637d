//! Docker image tag data.
//!
//! Tags and tag listings are fetched from Docker Hub by the caller; this
//! module holds their shape.

use vstd::prelude::*;

verus! {

/// Docker image tag information
#[derive(Debug, Clone)]
pub struct Tag {
    /// Tag name (e.g., "latest", "v1.0.0")
    pub name: String,
    /// Last update timestamp in RFC3339 format
    pub last_updated: String,
}

impl Tag {
    /// Create a new tag
    pub fn new(name: String, last_updated: String) -> (r: Self)
        ensures
            r.name == name,
            r.last_updated == last_updated,
    {
        Tag { name, last_updated }
    }

    /// Get the tag name
    pub fn name(&self) -> (r: &str)
        ensures
            r@ == self.name@,
    {
        self.name.as_str()
    }
}

/// Response from Docker Hub API tag listing endpoint
#[derive(Debug)]
pub struct TagResponse {
    /// List of tags returned
    pub results: Vec<Tag>,
    /// URL for next page of results, if any
    pub next: Option<String>,
}

} // verus!
