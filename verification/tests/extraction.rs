use torust::{Category, SearchOptions, Torrent, TorustError, L33T};

#[test]
fn it_works() {}

fn listing_block(link: &str, title: &str, seed: &str, leech: &str, date: &str, size: &str, user: &str) -> String {
    format!(
        r#"<tr><td class="coll-1"><a href="/sub/10/">icon</a><a href="{link}">{title}</a></td><td class="coll-2 seeds">{seed}</td><td class="coll-3 leeches">{leech}</td><td class="coll-date">{date}</td><td class="coll-4 size">{size}<span class="seeds">x</span></td><td class="coll-5 uploader"><a href="/user/{user}/">{user}</a></td></tr>"#,
        link = link,
        title = title,
        seed = seed,
        leech = leech,
        date = date,
        size = size,
        user = user,
    )
}

#[test]
fn extracts_two_records_in_document_order() {
    let page = format!(
        "<html><body><table>{}{}</table></body></html>",
        listing_block(
            "/torrent/111/First-Item/",
            "First Item",
            "12",
            "3",
            "Jan. 1st '20",
            "1.2 GB",
            "alice"
        ),
        listing_block(
            "/torrent/222/Second-Item/",
            "Second Item",
            "0",
            "4294967295",
            "Feb. 2nd '21",
            "700 MB",
            "bob"
        ),
    );
    let out = L33T::extract_torrents(&page).unwrap();
    assert_eq!(out.len(), 2);
    assert_eq!(out[0].torrent_link, "https://1337x.to/torrent/111/First-Item/");
    assert_eq!(out[0].title, "First Item");
    assert_eq!(out[0].seeders, 12);
    assert_eq!(out[0].leechers, 3);
    assert_eq!(out[0].uploaded, "Jan. 1st '20");
    assert_eq!(out[0].size, "1.2 GB");
    assert_eq!(out[0].uploader, "alice");
    assert_eq!(out[1].torrent_link, "https://1337x.to/torrent/222/Second-Item/");
    assert_eq!(out[1].title, "Second Item");
    assert_eq!(out[1].seeders, 0);
    assert_eq!(out[1].leechers, 4294967295);
    assert_eq!(out[1].uploader, "bob");
}

#[test]
fn page_without_blocks_is_an_empty_result() {
    let page = "<html><body><p>No results were returned.</p></body></html>";
    let out = L33T::extract_torrents(page).unwrap();
    assert!(out.is_empty());
}

#[test]
fn malformed_seeder_count_fails_the_extraction() {
    let page = listing_block(
        "/torrent/111/First-Item/",
        "First Item",
        "many",
        "3",
        "Jan. 1st '20",
        "1.2 GB",
        "alice",
    );
    let out = L33T::extract_torrents(&page);
    assert_eq!(out, Err(TorustError::MalformedListing));
}

#[test]
fn numeric_overflow_fails_the_extraction() {
    let page = listing_block(
        "/torrent/111/First-Item/",
        "First Item",
        "4294967296",
        "3",
        "Jan. 1st '20",
        "1.2 GB",
        "alice",
    );
    let out = L33T::extract_torrents(&page);
    assert_eq!(out, Err(TorustError::MalformedListing));
}

#[test]
fn incomplete_block_yields_no_record() {
    // The anchor is present but the column cells never follow.
    let page = r#"<a href="/torrent/111/First-Item/">First Item</a><td class="coll-2">9</td>"#;
    let out = L33T::extract_torrents(page).unwrap();
    assert!(out.is_empty());
}

#[test]
fn two_documents_give_independent_results() {
    let page_a = listing_block(
        "/torrent/1/A/",
        "A",
        "1",
        "2",
        "d1",
        "1 GB",
        "alice",
    );
    let page_b = listing_block(
        "/torrent/2/B/",
        "B",
        "3",
        "4",
        "d2",
        "2 GB",
        "bob",
    );
    let out_a = L33T::extract_torrents(&page_a).unwrap();
    let out_b = L33T::extract_torrents(&page_b).unwrap();
    assert_eq!(out_a[0].title, "A");
    assert_eq!(out_a[0].seeders, 1);
    assert_eq!(out_b[0].title, "B");
    assert_eq!(out_b[0].seeders, 3);
}

#[test]
fn magnet_is_found_and_percent_decoded() {
    let page = r##"<html><a class="btn" href="#download">"magnet:?xt=urn:btih:ABC%20DEF"</a></html>"##;
    let out = L33T::extract_magnet(page).unwrap();
    assert_eq!(out, "magnet:?xt=urn:btih:ABC DEF");
}

#[test]
fn first_magnet_capture_wins() {
    let page = r#"x "magnet:?xt=urn:btih:first" y "magnet:?xt=urn:btih:second" z"#;
    let out = L33T::extract_magnet(page).unwrap();
    assert_eq!(out, "magnet:?xt=urn:btih:first");
}

#[test]
fn page_without_magnet_is_a_recoverable_error() {
    let page = "<html><body>nothing to see</body></html>";
    let out = L33T::extract_magnet(page);
    assert_eq!(out, Err(TorustError::MagnetNotFound));
}

#[test]
fn clone_keeps_the_record() {
    let t = Torrent {
        torrent_link: "https://1337x.to/torrent/1/A/".to_string(),
        title: "A".to_string(),
        seeders: 1,
        leechers: 2,
        uploaded: "d".to_string(),
        size: "1 GB".to_string(),
        uploader: "u".to_string(),
    };
    let u = t.clone();
    assert_eq!(t, u);
}

#[test]
fn search_options_carry_their_fields() {
    let s = SearchOptions {
        query: "peripheral".to_string(),
        category: Category::TVShows,
        page: 0,
    };
    assert_eq!(s.query, "peripheral");
    assert!(matches!(s.category, Category::TVShows));
    assert_eq!(s.page, 0);
}
