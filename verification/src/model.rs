//! The data model: query descriptors, listing records, and the error
//! taxonomy.

use vstd::prelude::*;

verus! {

/// The closed set of search categories the site understands.
#[derive(Clone, Copy, Debug, PartialEq, Eq, Structural)]
pub enum Category {
    Movies,
    TVShows,
}

/// A query descriptor: the free search text, a category selector, and a
/// zero-based page index.
pub struct SearchOptions {
    pub query: String,
    pub category: Category,
    pub page: u32,
}

/// One extracted listing record, fields exactly as captured from the
/// results page, in the order the site renders them.
#[derive(Clone, Debug, PartialEq)]
pub struct Torrent {
    pub torrent_link: String,
    pub title: String,
    pub seeders: u32,
    pub leechers: u32,
    pub uploaded: String,
    pub size: String,
    pub uploader: String,
}

/// The spec-level shape of a listing record.
pub struct TorrentV {
    pub torrent_link: Seq<char>,
    pub title: Seq<char>,
    pub seeders: u32,
    pub leechers: u32,
    pub uploaded: Seq<char>,
    pub size: Seq<char>,
    pub uploader: Seq<char>,
}

impl View for Torrent {
    type V = TorrentV;

    open spec fn view(&self) -> TorrentV {
        TorrentV {
            torrent_link: self.torrent_link@,
            title: self.title@,
            seeders: self.seeders,
            leechers: self.leechers,
            uploaded: self.uploaded@,
            size: self.size@,
            uploader: self.uploader@,
        }
    }
}

/// The closed error taxonomy.
#[derive(Clone, Debug, PartialEq)]
pub enum TorustError {
    /// The document could not be fetched; carries the transport's message.
    RequestError(String),
    /// The query text is shorter than three characters.
    SearchTooShort,
    /// No quoted magnet string was found in the detail page, or the one
    /// found did not decode to text.
    MagnetNotFound,
    /// A numeric capture in a listing was not a `u32` numeral.
    MalformedListing,
}

/// The descriptive text of each error.
pub open spec fn error_message(e: TorustError) -> Seq<char> {
    match e {
        TorustError::RequestError(m) => "Request error: "@ + m@,
        TorustError::SearchTooShort => "Search was too short. Try adding more characters"@,
        TorustError::MagnetNotFound => "No magnet link was found in the page"@,
        TorustError::MalformedListing => "A listing's numeric field could not be parsed"@,
    }
}

impl TorustError {
    /// A human-readable description of the error.
    pub fn message(&self) -> (r: String)
        ensures
            r@ == error_message(*self),
    {
        match self {
            TorustError::RequestError(m) => String::from_str("Request error: ").concat(
                m.as_str(),
            ),
            TorustError::SearchTooShort => String::from_str(
                "Search was too short. Try adding more characters",
            ),
            TorustError::MagnetNotFound => String::from_str(
                "No magnet link was found in the page",
            ),
            TorustError::MalformedListing => String::from_str(
                "A listing's numeric field could not be parsed",
            ),
        }
    }
}

} // verus!
