use mdown::ids::resolve_regex;
use mdown::text::process_filename;
use mdown::title::{get_manga_name, TitleData, TitleEntry};

fn entry(lang: &str, text: &str) -> TitleEntry {
    TitleEntry { lang: lang.to_string(), text: Some(text.to_string()), json: format!("\"{}\"", text) }
}

#[test]
fn test_get_manga_name_returns_english_title_if_exists() {
    let title_data = TitleData { title: Some(vec![entry("en", "English Title")]), alt_titles: None };
    let result = get_manga_name(&title_data, "en");
    assert_eq!(result, "English Title");
}

#[test]
fn test_get_manga_name_returns_english_title_if_exists_in_alt_titles() {
    let title_data =
        TitleData { title: None, alt_titles: Some(vec![Some(vec![entry("en", "English Title")])]) };
    let result = get_manga_name(&title_data, "en");
    assert_eq!(result, "English Title");
}

#[test]
fn test_get_manga_name_returns_first_english_title_found_in_alt_titles() {
    let title_data = TitleData {
        title: None,
        alt_titles: Some(vec![
            Some(vec![entry("en", "English Title")]),
            Some(vec![entry("fr", "French Title")]),
        ]),
    };
    let result = get_manga_name(&title_data, "en");
    assert_eq!(result, "English Title");
}

#[test]
fn test_get_manga_name_returns_empty_string_if_title_in_alt_titles_but_no_english_language_available() {
    let title_data =
        TitleData { title: None, alt_titles: Some(vec![Some(vec![entry("fr", "French Title")])]) };
    let result = get_manga_name(&title_data, "en");
    assert_eq!(result, "Unrecognized title");
}

#[test]
fn test_get_manga_name_returns_empty_string_if_title_in_alt_titles_but_no_language_available() {
    let title_data = TitleData { title: None, alt_titles: Some(vec![Some(vec![])]) };
    let result = get_manga_name(&title_data, "en");
    assert_eq!(result, "Unrecognized title");
}

#[test]
fn retrieves_manga_name_based_on_language() {
    let title_data = TitleData {
        title: Some(vec![entry("en", "One Piece"), entry("ja-ro", "Wan Pīsu")]),
        alt_titles: Some(vec![Some(vec![entry("en", "One Piece"), entry("ja-ro", "Wan Pīsu")])]),
    };
    let result = get_manga_name(&title_data, "en");
    assert_eq!(result, "One Piece");
}

#[test]
fn handles_missing_or_null_title_data() {
    let title_data = TitleData { title: None, alt_titles: None };
    let result = get_manga_name(&title_data, "en");
    assert_eq!(result, "Unrecognized title");
}

#[test]
fn test_resolve_regex_valid_mangadex_url() {
    let url = "https://mangadex.org/title/12345";
    let result = resolve_regex(url);
    assert!(result.is_some());
}

#[test]
fn test_resolve_regex_invalid_mangadex_url() {
    let url = "https://example.com";
    let result = resolve_regex(url);
    assert!(result.is_none());
}

#[test]
fn test_resolve_regex_empty_string() {
    let url = "";
    let result = resolve_regex(url);
    assert!(result.is_none());
}

#[test]
fn test_resolve_regex_non_mangadex_url() {
    let url = "https://google.com";
    let result = resolve_regex(url);
    assert!(result.is_none());
}

#[test]
fn test_resolve_regex_invalid_mangadex_url_format() {
    let url = "https://mangadex.org/title/12345/extra";
    let result = resolve_regex(url);
    assert!(result.is_some());
}

#[test]
fn test_resolve_regex_mangadex_url_with_query_parameters() {
    let url = "https://mangadex.org/title/12345?param=value";
    let result = resolve_regex(url);
    assert!(result.is_some());
}

#[test]
fn should_return_same_filename() {
    let filename = "test.txt";
    let result = process_filename(filename);
    assert_eq!(result, "test.txt");
}

#[test]
fn should_return_empty_string() {
    let filename = "<>:|?*/\\\"";
    let result = process_filename(filename);
    assert_eq!(result, "");
}
