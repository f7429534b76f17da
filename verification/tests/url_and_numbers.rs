use torust::numeric::{parse_u32, u64_to_dec_string};
use torust::urlenc::{url_decode, url_encode};
use torust::{Category, SearchOptions, TorustError, L33T};

#[test]
fn short_query_fails_before_anything_else() {
    let r = L33T::search_url(&SearchOptions {
        query: "pe".to_string(),
        category: Category::TVShows,
        page: 0,
    });
    assert_eq!(r, Err(TorustError::SearchTooShort));
}

#[test]
fn empty_query_fails() {
    let r = L33T::search_url(&SearchOptions {
        query: String::new(),
        category: Category::Movies,
        page: 7,
    });
    assert_eq!(r, Err(TorustError::SearchTooShort));
}

#[test]
fn three_characters_are_enough() {
    let r = L33T::search_url(&SearchOptions {
        query: "abc".to_string(),
        category: Category::Movies,
        page: 0,
    });
    assert_eq!(r.unwrap(), "https://1337x.to/category-search/abc/Movies/1/");
}

#[test]
fn page_index_becomes_one_based_segment() {
    let zero = L33T::search_url(&SearchOptions {
        query: "peripheral".to_string(),
        category: Category::TVShows,
        page: 0,
    })
    .unwrap();
    assert_eq!(zero, "https://1337x.to/category-search/peripheral/TV/1/");
    let five = L33T::search_url(&SearchOptions {
        query: "peripheral".to_string(),
        category: Category::TVShows,
        page: 5,
    })
    .unwrap();
    assert_eq!(five, "https://1337x.to/category-search/peripheral/TV/6/");
}

#[test]
fn largest_page_index_still_builds() {
    let r = L33T::search_url(&SearchOptions {
        query: "abc".to_string(),
        category: Category::Movies,
        page: u32::MAX,
    })
    .unwrap();
    assert_eq!(r, "https://1337x.to/category-search/abc/Movies/4294967296/");
}

#[test]
fn query_with_space_is_percent_encoded_and_decodes_back() {
    let url = L33T::search_url(&SearchOptions {
        query: "the peripheral".to_string(),
        category: Category::TVShows,
        page: 0,
    })
    .unwrap();
    assert!(!url.contains(' '));
    assert!(url.contains("the%20peripheral"));
    assert_eq!(url_decode("the%20peripheral").unwrap(), "the peripheral");
}

#[test]
fn encoding_keeps_safe_characters_and_escapes_the_rest() {
    assert_eq!(url_encode("abc-_.~XYZ019"), "abc-_.~XYZ019");
    assert_eq!(url_encode("a b&c"), "a%20b%26c");
    let round = url_decode(&url_encode("100% legal & sound?")).unwrap();
    assert_eq!(round, "100% legal & sound?");
}

#[test]
fn non_ascii_text_is_encoded_byte_by_byte() {
    assert_eq!(url_encode("café"), "caf%C3%A9");
    assert_eq!(url_decode("caf%C3%A9").unwrap(), "café");
}

#[test]
fn decoding_leaves_malformed_sequences_alone() {
    assert_eq!(url_decode("100%").unwrap(), "100%");
    assert_eq!(url_decode("%zz").unwrap(), "%zz");
    assert_eq!(url_decode("%4g").unwrap(), "%4g");
}

#[test]
fn parse_accepts_plain_and_signed_numerals() {
    assert_eq!(parse_u32("0"), Some(0));
    assert_eq!(parse_u32("12"), Some(12));
    assert_eq!(parse_u32("+12"), Some(12));
    assert_eq!(parse_u32("4294967295"), Some(u32::MAX));
}

#[test]
fn parse_rejects_garbage_and_overflow() {
    assert_eq!(parse_u32(""), None);
    assert_eq!(parse_u32("+"), None);
    assert_eq!(parse_u32("12x"), None);
    assert_eq!(parse_u32(" 12"), None);
    assert_eq!(parse_u32("4294967296"), None);
}

#[test]
fn decimal_rendering_matches_expected_values() {
    assert_eq!(u64_to_dec_string(0), "0");
    assert_eq!(u64_to_dec_string(10), "10");
    assert_eq!(u64_to_dec_string(90210), "90210");
}

#[test]
fn error_messages_name_their_cause() {
    assert_eq!(
        TorustError::SearchTooShort.message(),
        "Search was too short. Try adding more characters"
    );
    assert_eq!(
        TorustError::RequestError("timed out".to_string()).message(),
        "Request error: timed out"
    );
    assert_eq!(
        TorustError::MagnetNotFound.message(),
        "No magnet link was found in the page"
    );
    assert_eq!(
        TorustError::MalformedListing.message(),
        "A listing's numeric field could not be parsed"
    );
}
