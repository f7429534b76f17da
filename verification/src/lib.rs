//! Search-result extraction for a torrent index site.
//!
//! The library builds the request URL for a search, extracts listing
//! records from a fetched results page, and resolves a detail page into
//! its decoded magnet link.  Fetching the pages themselves is the
//! caller's business: every function here is a pure computation on the
//! document text it is given.

pub mod engine;
pub mod model;
pub mod numeric;
pub mod text;
pub mod urlenc;

pub use engine::L33T;
pub use model::Category;
pub use model::SearchOptions;
pub use model::Torrent;
pub use model::TorustError;
