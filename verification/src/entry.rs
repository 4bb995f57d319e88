//! Catalog data: entries as the catalog reports them, and their releases.
//!
//! Values of these types are transient: fetched, compared against the
//! watermark, formatted and then dropped. They are never persisted.

use vstd::prelude::*;

verus! {

/// One downloadable release of a catalog entry: where to get it, the content
/// hash a peer-to-peer link is derived from, and a quality label.
pub struct Release {
    /// Download URL of the release file.
    pub url: String,
    /// Content hash the resource link is derived from.
    pub hash: String,
    /// Quality label, e.g. a resolution.
    pub quality: String,
}

/// One catalog entry. Identifiers are assigned by the upstream catalog in
/// insertion order, so a greater identifier means a later addition.
pub struct CatalogEntry {
    /// Globally unique identifier, monotonically assigned upstream.
    pub id: u32,
    /// Display title.
    pub title: String,
    /// Release year.
    pub year: u32,
    /// URL of the cover image.
    pub cover_url: String,
    /// Releases in the order the catalog lists them; may be empty.
    pub releases: Vec<Release>,
}

} // verus!
