//! The artifact resolver: turns a request for a file's thumbnail into what
//! the catalog knows of it. It never changes the catalog.

use crate::catalog::position_of;
use crate::catalog::status_of;
use crate::catalog::Catalog;
use crate::catalog::Status;
use vstd::prelude::*;

verus! {

/// The answer to a thumbnail request.
#[derive(Clone, Debug, PartialEq, Eq)]
pub enum ThumbnailLookup {
    /// The artifact is ready at this location.
    Ready(String),
    /// The file is indexed and its thumbnail is pending or being generated.
    NotYet,
    /// Generation failed for this file.
    Unavailable,
    /// The file is not indexed.
    NotFound,
}

/// Resolves a thumbnail request for `path`: `NotFound` for an unindexed path,
/// `NotYet` while its row is `Pending` or `Generating`, `Unavailable` once
/// `Failed`, and the artifact's location once `Ready`.
pub fn resolve_thumbnail(catalog: &Catalog, path: &str) -> (r: ThumbnailLookup)
    requires
        catalog.wf(),
    ensures
        match status_of(catalog@, path@) {
            None => r is NotFound,
            Some(Status::Pending) | Some(Status::Generating) => r is NotYet,
            Some(Status::Failed) => r is Unavailable,
            Some(Status::Ready) => r is Ready && Some(r->Ready_0) == catalog@[position_of(
                catalog@,
                path@,
            )].thumbnail_location,
        },
{
    match catalog.get_by_path(path) {
        None => ThumbnailLookup::NotFound,
        Some(row) => match row.status {
            Status::Pending | Status::Generating => ThumbnailLookup::NotYet,
            Status::Failed => ThumbnailLookup::Unavailable,
            Status::Ready => match row.thumbnail_location {
                Some(l) => ThumbnailLookup::Ready(l),
                None => ThumbnailLookup::Unavailable,
            },
        },
    }
}

} // verus!
