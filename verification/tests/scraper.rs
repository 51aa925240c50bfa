use beatmap_clone::parser::{quote, scrape};

#[test]
fn scrape_beatmap_id() {
    assert_eq!(scrape("BeatmapID:1234\n", "BeatmapID:", "\n"), "1234");
}

#[test]
fn scrape_missing_start_marker_is_empty() {
    let text = "Title:Foo\nArtist:Bar\n";
    assert_eq!(scrape(text, "Missing:", "\n"), "");
}

#[test]
fn scrape_missing_end_marker_is_empty() {
    assert_eq!(scrape("Title:Foo", "Title:", "\n"), "");
}

#[test]
fn scrape_trims_whitespace() {
    assert_eq!(scrape("Title:  Foo Bar  \nRest", "Title:", "\n"), "Foo Bar");
}

#[test]
fn scrape_takes_first_occurrence() {
    assert_eq!(scrape("k:a\nk:b\n", "k:", "\n"), "a");
}

#[test]
fn scrape_quoted_background() {
    let line = "0,0,\"bg.jpg\",0,0\n";
    assert_eq!(scrape(line, "0,0,\"", "\""), "bg.jpg");
}

#[test]
fn quote_plain_word_unchanged() {
    assert_eq!(quote("abc-123"), "abc-123");
}

#[test]
fn quote_wraps_on_space() {
    assert_eq!(quote("a b"), "\"a b\"");
}

#[test]
fn quote_escapes_double_quote() {
    assert_eq!(quote("a\"b"), "\"a\\\"b\"");
}

#[test]
fn quote_wraps_on_apostrophe_and_backslash() {
    assert_eq!(quote("it's"), "\"it's\"");
    assert_eq!(quote("a\\b"), "\"a\\b\"");
}

#[test]
fn quote_empty_unchanged() {
    assert_eq!(quote(""), "");
}
