//! Poll-detect-broadcast engine for a movie-catalog notifier, together with a
//! URL pattern-range scanner.
//!
//! The crate holds the stateful logic of a chat bot that watches a public
//! movie catalog: a monotonically advancing watermark over entry identifiers,
//! a duplicate-free subscriber registry, the per-tick detection of newly
//! published entries, the notification formatter, and the parser for the
//! scanner's bracketed URL patterns. Network transport (fetching, sending)
//! lives outside the crate and hands plain values in and out.

pub mod entry;
pub mod format;
pub mod lifecycle;
pub mod page;
pub mod scanner;
pub mod subscribers;
pub mod textutil;
pub mod tick;
pub mod watermark;

pub use entry::CatalogEntry;
pub use entry::Release;
pub use subscribers::SubscriberSet;
pub use watermark::Watermark;
