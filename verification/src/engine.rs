//! The listing extractor and magnet resolver.
//!
//! A results page is scanned for listing blocks in one fixed column
//! layout: the detail link and title, then the seeder, leecher,
//! upload-date, size and uploader cells, in that order.  The grammar is
//! written down once as spec functions over the document's characters;
//! the executable scanner is proved to return exactly what they describe.

use crate::model::Category;
use crate::model::SearchOptions;
use crate::model::Torrent;
use crate::model::TorrentV;
use crate::model::TorustError;
use crate::numeric::dec_of;
use crate::numeric::parse_u32;
use crate::numeric::parse_u32_spec;
use crate::numeric::u64_to_dec_string;
use crate::text::find_from;
use crate::text::find_in;
use crate::text::lemma_find_from_some;
use crate::text::str_to_chars;
use crate::urlenc::url_decode;
use crate::urlenc::url_decoded;
use crate::urlenc::url_encode;
use crate::urlenc::url_encoded;
use vstd::prelude::*;

verus! {

/// The site's own token for each category.
pub open spec fn category_token(c: Category) -> Seq<char> {
    match c {
        Category::Movies => "Movies"@,
        Category::TVShows => "TV"@,
    }
}

/// The request URL for a query: the encoded text, the category token and
/// the one-based page number, each its own path segment.
pub open spec fn search_url_spec(query: Seq<char>, c: Category, page: u32) -> Seq<char> {
    "https://1337x.to/category-search/"@ + url_encoded(query) + "/"@ + category_token(c) + "/"@
        + dec_of(page as nat + 1) + "/"@
}

/// A built request URL contains no space: the query text is
/// percent-encoded, and every other segment is fixed text or digits.
pub proof fn lemma_search_url_no_space(query: Seq<char>, c: Category, page: u32)
    ensures
        forall|i: int|
            0 <= i < search_url_spec(query, c, page).len() ==> (#[trigger] search_url_spec(
                query,
                c,
                page,
            )[i]) != ' ',
{
    reveal_strlit("https://1337x.to/category-search/");
    reveal_strlit("/");
    reveal_strlit("Movies");
    reveal_strlit("TV");
    crate::urlenc::lemma_url_encoded_no_space(query);
    crate::numeric::lemma_dec_of_digits(page as nat + 1);
    let a = "https://1337x.to/category-search/"@;
    let e = url_encoded(query);
    let s = "/"@;
    let t = category_token(c);
    let d = dec_of(page as nat + 1);
    let u = search_url_spec(query, c, page);
    assert forall|i: int| 0 <= i < u.len() implies u[i] != ' ' by {
        assert(u == a + e + s + t + s + d + s);
        let n1 = a.len() as int;
        let n2 = n1 + e.len();
        let n3 = n2 + s.len();
        let n4 = n3 + t.len();
        let n5 = n4 + s.len();
        let n6 = n5 + d.len();
        if i < n1 {
            assert(u[i] == a[i]);
        } else if i < n2 {
            assert(u[i] == e[i - n1]);
        } else if i < n3 {
            assert(u[i] == s[i - n2]);
        } else if i < n4 {
            assert(u[i] == t[i - n3]);
            match c {
                Category::Movies => assert(t[i - n3] != ' '),
                Category::TVShows => assert(t[i - n3] != ' '),
            }
        } else if i < n5 {
            assert(u[i] == s[i - n4]);
        } else if i < n6 {
            assert(u[i] == d[i - n5]);
            assert(crate::numeric::is_digit(d[i - n5]));
        } else {
            assert(u[i] == s[i - n6]);
        }
    }
}

/// The seven captured fields of one listing block, and the position just
/// past the block.
pub struct ScanRec {
    pub link: Seq<char>,
    pub title: Seq<char>,
    pub seeders_txt: Seq<char>,
    pub leechers_txt: Seq<char>,
    pub uploaded: Seq<char>,
    pub size: Seq<char>,
    pub uploader: Seq<char>,
    pub end: int,
}

/// The next occurrence of `pat` at or after `off` characters past an
/// earlier found position, if that position exists.
pub open spec fn after(doc: Seq<char>, pat: Seq<char>, prev: Option<int>, off: int) -> Option<
    int,
> {
    match prev {
        None => None,
        Some(p) => find_from(doc, pat, p + off),
    }
}

/// One listing block starting at or after `i`: the detail link anchored
/// on `href="/torrent`, its title, then the five cells in column order.
/// `None` when no complete block follows.
pub open spec fn scan_record(doc: Seq<char>, i: int) -> Option<ScanRec> {
    let a = find_from(doc, "href=\"/torrent"@, i);
    let q = after(doc, "\">"@, a, 14);
    let t = after(doc, "</a>"@, q, 2);
    let s2 = after(doc, "coll-2"@, t, 4);
    let g2 = after(doc, ">"@, s2, 6);
    let e2 = after(doc, "</td>"@, g2, 1);
    let s3 = after(doc, "coll-3"@, e2, 5);
    let g3 = after(doc, ">"@, s3, 6);
    let e3 = after(doc, "</td>"@, g3, 1);
    let sd = after(doc, "coll-date"@, e3, 5);
    let gd = after(doc, ">"@, sd, 9);
    let ed = after(doc, "</td>"@, gd, 1);
    let s4 = after(doc, "coll-4"@, ed, 5);
    let g4 = after(doc, ">"@, s4, 6);
    let e4 = after(doc, "<span"@, g4, 1);
    let s5 = after(doc, "coll-5"@, e4, 5);
    let h5 = after(doc, "<a href=\""@, s5, 6);
    let q5 = after(doc, "\">"@, h5, 9);
    let a5 = after(doc, "</a>"@, q5, 2);
    match (a, q, t, g2, e2, g3, e3, gd, ed, g4, e4, q5, a5) {
        (
            Some(a),
            Some(q),
            Some(t),
            Some(g2),
            Some(e2),
            Some(g3),
            Some(e3),
            Some(gd),
            Some(ed),
            Some(g4),
            Some(e4),
            Some(q5),
            Some(a5),
        ) => Some(
            ScanRec {
                link: doc.subrange(a + 6, q),
                title: doc.subrange(q + 2, t),
                seeders_txt: doc.subrange(g2 + 1, e2),
                leechers_txt: doc.subrange(g3 + 1, e3),
                uploaded: doc.subrange(gd + 1, ed),
                size: doc.subrange(g4 + 1, e4),
                uploader: doc.subrange(q5 + 2, a5),
                end: a5 + 4,
            },
        ),
        _ => None,
    }
}

/// The record a scanned block yields, once its numeric cells have parsed.
pub open spec fn torrent_of(rec: ScanRec, s: u32, l: u32) -> TorrentV {
    TorrentV {
        torrent_link: "https://1337x.to"@ + rec.link,
        title: rec.title,
        seeders: s,
        leechers: l,
        uploaded: rec.uploaded,
        size: rec.size,
        uploader: rec.uploader,
    }
}

/// Every listing from position `i` on, in document order; `None` when a
/// seeder or leecher capture is not a `u32` numeral.  The scan always
/// advances past each block; the bounds test only keeps the recursion
/// well-founded.
pub open spec fn scan_from(doc: Seq<char>, i: int) -> Option<Seq<TorrentV>>
    decreases doc.len() - i,
    when 0 <= i <= doc.len()
{
    match scan_record(doc, i) {
        None => Some(Seq::empty()),
        Some(rec) => match (parse_u32_spec(rec.seeders_txt), parse_u32_spec(rec.leechers_txt)) {
            (Some(s), Some(l)) => {
                if i < rec.end <= doc.len() {
                    match scan_from(doc, rec.end) {
                        None => None,
                        Some(rest) => Some(seq![torrent_of(rec, s, l)] + rest),
                    }
                } else {
                    Some(seq![torrent_of(rec, s, l)])
                }
            },
            _ => None,
        },
    }
}

/// The first quoted magnet capture of a detail page: the text between a
/// quote directly followed by `magnet` and the next quote.
pub open spec fn magnet_capture(doc: Seq<char>) -> Option<Seq<char>> {
    match find_from(doc, "\"magnet"@, 0) {
        None => None,
        Some(a) => match find_from(doc, "\""@, a + 1) {
            None => None,
            Some(q) => Some(doc.subrange(a + 1, q)),
        },
    }
}

/// The captured fields of one block, as owned text.
struct RawListing {
    link: String,
    title: String,
    seeders_txt: String,
    leechers_txt: String,
    uploaded: String,
    size: String,
    uploader: String,
    end: usize,
}

/// Scans one listing block at or after `i`, as [`scan_record`] describes.
fn scan_record_at(page: &str, doc: &Vec<char>, i: usize) -> (r: Option<RawListing>)
    requires
        doc@ == page@,
        i <= doc@.len(),
    ensures
        match r {
            Some(raw) => ({
                &&& scan_record(doc@, i as int) == Some(
                    ScanRec {
                        link: raw.link@,
                        title: raw.title@,
                        seeders_txt: raw.seeders_txt@,
                        leechers_txt: raw.leechers_txt@,
                        uploaded: raw.uploaded@,
                        size: raw.size@,
                        uploader: raw.uploader@,
                        end: raw.end as int,
                    },
                )
                &&& i < raw.end <= doc@.len()
            }),
            None => scan_record(doc@, i as int) is None,
        },
{
    let n = doc.len();
    proof {
        assert(n == doc@.len());
        reveal_strlit("href=\"/torrent");
        reveal_strlit("\">");
        reveal_strlit("</a>");
        reveal_strlit("coll-2");
        reveal_strlit("coll-3");
        reveal_strlit("coll-date");
        reveal_strlit("coll-4");
        reveal_strlit("coll-5");
        reveal_strlit(">");
        reveal_strlit("</td>");
        reveal_strlit("<span");
        reveal_strlit("<a href=\"");
    }
    let a = match find_in(doc, &str_to_chars("href=\"/torrent"), i) {
        None => {
            return None;
        },
        Some(j) => j,
    };
    proof {
        lemma_find_from_some(doc@, "href=\"/torrent"@, i as int, a as int);
    }
    let q = match find_in(doc, &str_to_chars("\">"), a + 14) {
        None => {
            return None;
        },
        Some(j) => j,
    };
    proof {
        lemma_find_from_some(doc@, "\">"@, a + 14, q as int);
    }
    let t = match find_in(doc, &str_to_chars("</a>"), q + 2) {
        None => {
            return None;
        },
        Some(j) => j,
    };
    proof {
        lemma_find_from_some(doc@, "</a>"@, q + 2, t as int);
    }
    let s2 = match find_in(doc, &str_to_chars("coll-2"), t + 4) {
        None => {
            return None;
        },
        Some(j) => j,
    };
    proof {
        lemma_find_from_some(doc@, "coll-2"@, t + 4, s2 as int);
    }
    let g2 = match find_in(doc, &str_to_chars(">"), s2 + 6) {
        None => {
            return None;
        },
        Some(j) => j,
    };
    proof {
        lemma_find_from_some(doc@, ">"@, s2 + 6, g2 as int);
    }
    let e2 = match find_in(doc, &str_to_chars("</td>"), g2 + 1) {
        None => {
            return None;
        },
        Some(j) => j,
    };
    proof {
        lemma_find_from_some(doc@, "</td>"@, g2 + 1, e2 as int);
    }
    let s3 = match find_in(doc, &str_to_chars("coll-3"), e2 + 5) {
        None => {
            return None;
        },
        Some(j) => j,
    };
    proof {
        lemma_find_from_some(doc@, "coll-3"@, e2 + 5, s3 as int);
    }
    let g3 = match find_in(doc, &str_to_chars(">"), s3 + 6) {
        None => {
            return None;
        },
        Some(j) => j,
    };
    proof {
        lemma_find_from_some(doc@, ">"@, s3 + 6, g3 as int);
    }
    let e3 = match find_in(doc, &str_to_chars("</td>"), g3 + 1) {
        None => {
            return None;
        },
        Some(j) => j,
    };
    proof {
        lemma_find_from_some(doc@, "</td>"@, g3 + 1, e3 as int);
    }
    let sd = match find_in(doc, &str_to_chars("coll-date"), e3 + 5) {
        None => {
            return None;
        },
        Some(j) => j,
    };
    proof {
        lemma_find_from_some(doc@, "coll-date"@, e3 + 5, sd as int);
    }
    let gd = match find_in(doc, &str_to_chars(">"), sd + 9) {
        None => {
            return None;
        },
        Some(j) => j,
    };
    proof {
        lemma_find_from_some(doc@, ">"@, sd + 9, gd as int);
    }
    let ed = match find_in(doc, &str_to_chars("</td>"), gd + 1) {
        None => {
            return None;
        },
        Some(j) => j,
    };
    proof {
        lemma_find_from_some(doc@, "</td>"@, gd + 1, ed as int);
    }
    let s4 = match find_in(doc, &str_to_chars("coll-4"), ed + 5) {
        None => {
            return None;
        },
        Some(j) => j,
    };
    proof {
        lemma_find_from_some(doc@, "coll-4"@, ed + 5, s4 as int);
    }
    let g4 = match find_in(doc, &str_to_chars(">"), s4 + 6) {
        None => {
            return None;
        },
        Some(j) => j,
    };
    proof {
        lemma_find_from_some(doc@, ">"@, s4 + 6, g4 as int);
    }
    let e4 = match find_in(doc, &str_to_chars("<span"), g4 + 1) {
        None => {
            return None;
        },
        Some(j) => j,
    };
    proof {
        lemma_find_from_some(doc@, "<span"@, g4 + 1, e4 as int);
    }
    let s5 = match find_in(doc, &str_to_chars("coll-5"), e4 + 5) {
        None => {
            return None;
        },
        Some(j) => j,
    };
    proof {
        lemma_find_from_some(doc@, "coll-5"@, e4 + 5, s5 as int);
    }
    let h5 = match find_in(doc, &str_to_chars("<a href=\""), s5 + 6) {
        None => {
            return None;
        },
        Some(j) => j,
    };
    proof {
        lemma_find_from_some(doc@, "<a href=\""@, s5 + 6, h5 as int);
    }
    let q5 = match find_in(doc, &str_to_chars("\">"), h5 + 9) {
        None => {
            return None;
        },
        Some(j) => j,
    };
    proof {
        lemma_find_from_some(doc@, "\">"@, h5 + 9, q5 as int);
    }
    let a5 = match find_in(doc, &str_to_chars("</a>"), q5 + 2) {
        None => {
            return None;
        },
        Some(j) => j,
    };
    proof {
        lemma_find_from_some(doc@, "</a>"@, q5 + 2, a5 as int);
    }
    Some(
        RawListing {
            link: page.substring_char(a + 6, q).to_owned(),
            title: page.substring_char(q + 2, t).to_owned(),
            seeders_txt: page.substring_char(g2 + 1, e2).to_owned(),
            leechers_txt: page.substring_char(g3 + 1, e3).to_owned(),
            uploaded: page.substring_char(gd + 1, ed).to_owned(),
            size: page.substring_char(g4 + 1, e4).to_owned(),
            uploader: page.substring_char(q5 + 2, a5).to_owned(),
            end: a5 + 4,
        },
    )
}

/// The search engine for the `1337x` site.
pub struct L33T;

impl L33T {
    /// Builds the request URL for a query descriptor.  Fails with
    /// `SearchTooShort`, before anything else happens, exactly when the
    /// query text has fewer than three characters.
    pub fn search_url(search: &SearchOptions) -> (r: Result<String, TorustError>)
        ensures
            search.query@.len() < 3 ==> r == Err::<String, TorustError>(
                TorustError::SearchTooShort,
            ),
            search.query@.len() >= 3 ==> (match r {
                Ok(u) => u@ == search_url_spec(search.query@, search.category, search.page),
                Err(_) => false,
            }),
    {
        if search.query.as_str().unicode_len() < 3 {
            return Err(TorustError::SearchTooShort);
        }
        let encoded = url_encode(search.query.as_str());
        let token = match search.category {
            Category::Movies => "Movies",
            Category::TVShows => "TV",
        };
        let page_num = u64_to_dec_string(search.page as u64 + 1);
        let url = String::from_str("https://1337x.to/category-search/").concat(
            encoded.as_str(),
        ).concat("/").concat(token).concat("/").concat(page_num.as_str()).concat("/");
        proof {
            assert(url@ =~= search_url_spec(search.query@, search.category, search.page));
        }
        Ok(url)
    }

    /// Extracts every listing block of a results page, in document order.
    /// A seeder or leecher capture that is not a `u32` numeral fails the
    /// whole extraction with `MalformedListing`; a page without a single
    /// block is an empty result, not an error.
    pub fn extract_torrents(page: &str) -> (r: Result<Vec<Torrent>, TorustError>)
        ensures
            match (scan_from(page@, 0), r) {
                (Some(ts), Ok(v)) => v@.map_values(|t: Torrent| t@) == ts,
                (None, Err(e)) => e == TorustError::MalformedListing,
                _ => false,
            },
    {
        let doc = str_to_chars(page);
        let n = doc.len();
        let mut out: Vec<Torrent> = Vec::new();
        let mut pos: usize = 0;
        loop
            invariant
                doc@ == page@,
                pos <= n,
                n == doc@.len(),
                scan_from(page@, 0) == (match scan_from(page@, pos as int) {
                    None => None::<Seq<TorrentV>>,
                    Some(rest) => Some(out@.map_values(|t: Torrent| t@) + rest),
                }),
            decreases n - pos,
        {
            match scan_record_at(page, &doc, pos) {
                None => {
                    proof {
                        assert(scan_from(page@, pos as int) == Some(Seq::<TorrentV>::empty()));
                        assert(out@.map_values(|t: Torrent| t@) + Seq::<TorrentV>::empty()
                            =~= out@.map_values(|t: Torrent| t@));
                    }
                    return Ok(out);
                },
                Some(raw) => {
                    let ghost rec = ScanRec {
                        link: raw.link@,
                        title: raw.title@,
                        seeders_txt: raw.seeders_txt@,
                        leechers_txt: raw.leechers_txt@,
                        uploaded: raw.uploaded@,
                        size: raw.size@,
                        uploader: raw.uploader@,
                        end: raw.end as int,
                    };
                    let sv = match parse_u32(raw.seeders_txt.as_str()) {
                        None => {
                            proof {
                                assert(scan_from(page@, pos as int) is None);
                            }
                            return Err(TorustError::MalformedListing);
                        },
                        Some(v) => v,
                    };
                    let lv = match parse_u32(raw.leechers_txt.as_str()) {
                        None => {
                            proof {
                                assert(scan_from(page@, pos as int) is None);
                            }
                            return Err(TorustError::MalformedListing);
                        },
                        Some(v) => v,
                    };
                    let next = raw.end;
                    let item = Torrent {
                        torrent_link: String::from_str("https://1337x.to").concat(
                            raw.link.as_str(),
                        ),
                        title: raw.title,
                        seeders: sv,
                        leechers: lv,
                        uploaded: raw.uploaded,
                        size: raw.size,
                        uploader: raw.uploader,
                    };
                    proof {
                        assert(item@ == torrent_of(rec, sv, lv));
                        assert(scan_from(page@, pos as int) == (match scan_from(
                            page@,
                            rec.end,
                        ) {
                            None => None::<Seq<TorrentV>>,
                            Some(rest) => Some(seq![torrent_of(rec, sv, lv)] + rest),
                        }));
                    }
                    let ghost old_out = out@;
                    out.push(item);
                    proof {
                        assert(out@.map_values(|t: Torrent| t@) =~= old_out.map_values(
                            |t: Torrent| t@,
                        ).push(item@));
                        assert forall|rest: Seq<TorrentV>|
                            old_out.map_values(|t: Torrent| t@) + (seq![torrent_of(rec, sv, lv)]
                                + rest) =~= out@.map_values(|t: Torrent| t@) + rest by {}
                    }
                    pos = next;
                },
            }
        }
    }

    /// Resolves a fetched detail page to its decoded magnet link: the
    /// first quoted `magnet` capture, percent-decoded.  Fails with
    /// `MagnetNotFound` when no such capture exists or it does not decode
    /// to text.
    pub fn extract_magnet(page: &str) -> (r: Result<String, TorustError>)
        ensures
            match (magnet_capture(page@), r) {
                (Some(cap), Ok(m)) => url_decoded(cap) == Some(m@),
                (Some(cap), Err(e)) => url_decoded(cap) is None && e
                    == TorustError::MagnetNotFound,
                (None, Err(e)) => e == TorustError::MagnetNotFound,
                (None, Ok(_)) => false,
            },
    {
        proof {
            reveal_strlit("\"magnet");
            reveal_strlit("\"");
        }
        let doc = str_to_chars(page);
        let n = doc.len();
        proof {
            assert(n == doc@.len());
        }
        let a = match find_in(&doc, &str_to_chars("\"magnet"), 0) {
            None => {
                return Err(TorustError::MagnetNotFound);
            },
            Some(j) => j,
        };
        proof {
            lemma_find_from_some(doc@, "\"magnet"@, 0, a as int);
        }
        let q = match find_in(&doc, &str_to_chars("\""), a + 1) {
            None => {
                return Err(TorustError::MagnetNotFound);
            },
            Some(j) => j,
        };
        proof {
            lemma_find_from_some(doc@, "\""@, a + 1, q as int);
        }
        let cap = page.substring_char(a + 1, q);
        match url_decode(cap) {
            Some(m) => Ok(m),
            None => Err(TorustError::MagnetNotFound),
        }
    }
}

} // verus!
