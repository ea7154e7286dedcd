use chart_playlist::assemble::{batches, playlist_title, ADD_BATCH_LIMIT};
use chart_playlist::chart::{
    chart_url, entries_from_response, extract_entries, pair_entries, ChartDate, ChartEntry,
    retain_valid, ChartError, SelectorConfig,
};
use chart_playlist::resolve::{
    classify_failure, search_query, select_track, Resolver, SearchOutcome,
    SearchTransportError,
};
use chart_playlist::text::push_decimal;

fn date(year: i32, month: &str, day: &str) -> ChartDate {
    ChartDate { year, month: month.to_string(), day: day.to_string() }
}

fn entry(title: &str, artist: &str) -> ChartEntry {
    ChartEntry { title: title.to_string(), artist: artist.to_string() }
}

fn strings(v: &[&str]) -> Vec<String> {
    v.iter().map(|s| s.to_string()).collect()
}

fn found(id: &str) -> SearchOutcome {
    SearchOutcome::Tracks(vec![Some(id.to_string())])
}

fn no_tracks() -> SearchOutcome {
    SearchOutcome::Tracks(vec![])
}

fn config() -> SelectorConfig {
    SelectorConfig { title: "h3.title".to_string(), artist: "span.artist".to_string() }
}

const PAGE: &str = "<html><body><ul>\
    <li><h3 class=\"title\">\n  Song A  \n</h3><span class=\"artist\"> Artist X </span></li>\
    <li><h3 class=\"title\">Song B</h3><span class=\"artist\">Artist Y</span></li>\
    <li><h3 class=\"title\">Song C</h3></li>\
    </ul></body></html>";

#[test]
fn url_embeds_date_after_prefix() {
    let url = chart_url(&date(2020, "03", "14"));
    assert_eq!(url, "https://www.billboard.com/charts/hot-100/2020-03-14?rank=1");
    let early = chart_url(&date(1958, "8", "4"));
    assert_eq!(early, "https://www.billboard.com/charts/hot-100/1958-8-4?rank=1");
}

#[test]
fn decimal_text_of_integers() {
    let mut s = String::from("n=");
    push_decimal(&mut s, 0);
    push_decimal(&mut s, -42);
    push_decimal(&mut s, i64::MIN);
    assert_eq!(s, "n=0-42-9223372036854775808");
}

#[test]
fn pairing_stops_at_shorter_list_and_trims() {
    let titles = strings(&["  Song A ", "Song B\n", "Song C"]);
    let artists = strings(&["\tArtist X", "Artist Y "]);
    let entries = pair_entries(&titles, &artists);
    assert_eq!(entries.len(), 2);
    assert_eq!(entries[0].title, "Song A");
    assert_eq!(entries[0].artist, "Artist X");
    assert_eq!(entries[1].title, "Song B");
    assert_eq!(entries[1].artist, "Artist Y");
}

#[test]
fn extraction_pairs_nodes_of_page() {
    let entries = extract_entries(PAGE, &config()).unwrap();
    assert_eq!(entries.len(), 2);
    assert_eq!(entries[0].title, "Song A");
    assert_eq!(entries[0].artist, "Artist X");
    assert_eq!(entries[1].title, "Song B");
    assert_eq!(entries[1].artist, "Artist Y");
}

#[test]
fn extraction_rejects_invalid_selector() {
    let cfg = SelectorConfig { title: "h3[[".to_string(), artist: "span.artist".to_string() };
    assert!(matches!(extract_entries(PAGE, &cfg), Err(ChartError::Selector)));
}

#[test]
fn extraction_fails_when_selector_matches_nothing() {
    let cfg = SelectorConfig { title: "h3.title".to_string(), artist: "div.none".to_string() };
    assert!(matches!(extract_entries(PAGE, &cfg), Err(ChartError::Parse)));
    assert!(matches!(extract_entries("<p>not a chart</p>", &config()), Err(ChartError::Parse)));
}

#[test]
fn extraction_drops_blank_pairs() {
    let page = "<ul>\
        <li><h3 class=\"title\">  </h3><span class=\"artist\">Artist X</span></li>\
        <li><h3 class=\"title\">Song B</h3><span class=\"artist\"> Artist Y </span></li>\
        <li><h3 class=\"title\">Song C</h3><span class=\"artist\">\n</span></li>\
        </ul>";
    let entries = extract_entries(page, &config()).unwrap();
    assert_eq!(entries.len(), 1);
    assert_eq!(entries[0].title, "Song B");
    assert_eq!(entries[0].artist, "Artist Y");
}

#[test]
fn extraction_fails_when_every_pair_is_blank() {
    let page = "<ul>\
        <li><h3 class=\"title\"> </h3><span class=\"artist\">Artist X</span></li>\
        <li><h3 class=\"title\">Song B</h3><span class=\"artist\"></span></li>\
        </ul>";
    assert!(matches!(extract_entries(page, &config()), Err(ChartError::Parse)));
    assert!(matches!(entries_from_response(200, page, &config()), Err(ChartError::Parse)));
}

#[test]
fn inner_html_keeps_attribute_order() {
    let page = "<ul><li><h3 class=\"title\"><a href=\"/x\" title=\"y\">Song</a></h3>\
        <span class=\"artist\">Artist</span></li></ul>";
    for _ in 0..5 {
        let entries = extract_entries(page, &config()).unwrap();
        assert_eq!(entries[0].title, "<a href=\"/x\" title=\"y\">Song</a>");
    }
}

#[test]
fn unicode_whitespace_counts_as_blank() {
    let titles = strings(&["\u{3000}\u{a0}", "\u{2003}Song B\u{85}"]);
    let artists = strings(&["Artist X", "Artist Y"]);
    let pairs = pair_entries(&titles, &artists);
    assert_eq!(pairs[1].title, "Song B");
    let kept = retain_valid(&pairs);
    assert_eq!(kept.len(), 1);
    assert_eq!(kept[0].title, "Song B");
}

#[test]
fn not_found_page_aborts_before_parsing() {
    let r = entries_from_response(404, PAGE, &config());
    assert!(matches!(r, Err(ChartError::Fetch { status: 404 })));
    let ok = entries_from_response(200, PAGE, &config()).unwrap();
    assert_eq!(ok.len(), 2);
}

#[test]
fn blank_entries_are_dropped() {
    let entries = vec![entry("Song A", "Artist X"), entry("   ", "Artist Y"), entry("Song C", ""), entry("Song D", "Artist Z")];
    let kept = retain_valid(&entries);
    assert_eq!(kept.len(), 2);
    assert_eq!(kept[0].title, "Song A");
    assert_eq!(kept[1].title, "Song D");
    let r = Resolver::new(&entries, &date(2020, "01", "01"));
    assert_eq!(r.next_query().unwrap(), "Song A artist:Artist X year:2018-2022");
}

#[test]
fn query_embeds_artist_and_year_window() {
    let q = search_query(&entry("Song A", "Artist X"), 2020);
    assert_eq!(q, "Song A artist:Artist X year:2018-2022");
    let q = search_query(&entry("Hey Jude", "The Beatles"), 1968);
    assert_eq!(q, "Hey Jude artist:The Beatles year:1966-1970");
}

#[test]
fn first_candidate_wins() {
    let o = SearchOutcome::Tracks(vec![Some("first".to_string()), Some("second".to_string())]);
    assert_eq!(select_track(&o).unwrap(), "first");
    let missing = SearchOutcome::Tracks(vec![None, Some("second".to_string())]);
    assert!(select_track(&missing).is_none());
    assert!(select_track(&no_tracks()).is_none());
    assert!(select_track(&SearchOutcome::QueryFailed).is_none());
}

#[test]
fn failures_are_classified() {
    assert!(matches!(classify_failure(None), SearchOutcome::Fatal));
    assert!(matches!(classify_failure(Some(401)), SearchOutcome::Fatal));
    assert!(matches!(classify_failure(Some(403)), SearchOutcome::Fatal));
    assert!(matches!(classify_failure(Some(400)), SearchOutcome::QueryFailed));
    assert!(matches!(classify_failure(Some(500)), SearchOutcome::QueryFailed));
}

#[test]
fn scenario_one_match_one_miss() {
    let entries = vec![entry("Song A", "Artist X"), entry("Song B", "Artist Y")];
    let mut r = Resolver::new(&entries, &date(2020, "06", "01"));
    assert_eq!(r.next_query().unwrap(), "Song A artist:Artist X year:2018-2022");
    r.record(found("trackA"));
    assert_eq!(r.next_query().unwrap(), "Song B artist:Artist Y year:2018-2022");
    r.record(no_tracks());
    assert!(r.next_query().is_none());
    let res = r.finish().unwrap();
    assert_eq!(res.tracks.len(), 1);
    assert_eq!(res.tracks[0].id, "trackA");
    assert_eq!(res.tracks[0].index, 0);
    assert_eq!(res.tracks[0].entry.title, "Song A");
    assert_eq!(res.skipped.len(), 1);
    assert_eq!(res.skipped[0].title, "Song B");
}

#[test]
fn no_match_and_query_failure_continue() {
    let entries = vec![entry("A", "x"), entry("B", "y"), entry("C", "z"), entry("D", "w")];
    let mut r = Resolver::new(&entries, &date(2001, "1", "1"));
    r.record(no_tracks());
    assert!(r.pending());
    r.record(SearchOutcome::QueryFailed);
    assert!(r.pending());
    r.record(SearchOutcome::Tracks(vec![None]));
    r.record(found("d"));
    assert!(!r.pending());
    let res = r.finish().unwrap();
    assert_eq!(res.tracks.len(), 1);
    assert_eq!(res.tracks[0].id, "d");
    assert_eq!(res.tracks[0].index, 3);
    assert_eq!(res.skipped.len(), 3);
}

#[test]
fn transport_failure_halts_pass() {
    let entries = vec![entry("A", "x"), entry("B", "y"), entry("C", "z")];
    let mut r = Resolver::new(&entries, &date(1990, "5", "5"));
    r.record(found("a"));
    r.record(SearchOutcome::Fatal);
    assert!(!r.pending());
    assert!(r.next_query().is_none());
    r.record(found("c"));
    assert!(r.next_query().is_none());
    assert_eq!(r.finish().err(), Some(SearchTransportError { index: 1 }));
}

#[test]
fn scenario_hundred_entries_three_misses() {
    let entries: Vec<ChartEntry> = (0..100).map(|i| entry(&format!("Song {}", i), &format!("Artist {}", i))).collect();
    let mut r = Resolver::new(&entries, &date(1985, "07", "13"));
    let mut k = 0;
    while let Some(q) = r.next_query() {
        assert!(q.starts_with(&format!("Song {} artist:Artist {} year:1983-1987", k, k)));
        if k == 10 || k == 50 || k == 99 {
            r.record(no_tracks());
        } else {
            r.record(found(&format!("id{}", k)));
        }
        k += 1;
    }
    assert_eq!(k, 100);
    let res = r.finish().unwrap();
    assert_eq!(res.tracks.len(), 97);
    assert_eq!(res.skipped.len(), 3);
    let skipped: Vec<&str> = res.skipped.iter().map(|e| e.title.as_str()).collect();
    assert_eq!(skipped, vec!["Song 10", "Song 50", "Song 99"]);
    for w in res.tracks.windows(2) {
        assert!(w[0].index < w[1].index);
    }
    let ids: Vec<String> = res.tracks.iter().map(|t| t.id.clone()).collect();
    let parts = batches(&ids, ADD_BATCH_LIMIT);
    assert_eq!(parts.len(), 1);
    assert_eq!(parts[0], ids);
}

#[test]
fn batches_keep_order_and_limit() {
    let ids: Vec<String> = (0..250).map(|i| format!("t{}", i)).collect();
    let parts = batches(&ids, 100);
    assert_eq!(parts.iter().map(|p| p.len()).collect::<Vec<_>>(), vec![100, 100, 50]);
    assert_eq!(parts.concat(), ids);
    assert!(batches(&Vec::new(), 100).is_empty());
    let exact: Vec<String> = (0..200).map(|i| format!("t{}", i)).collect();
    assert_eq!(batches(&exact, 100).len(), 2);
}

#[test]
fn title_names_chart_week() {
    assert_eq!(playlist_title(&date(2020, "03", "14")), "Top 100 from 2020 03 14");
}
