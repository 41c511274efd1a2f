use std::io::Write;
use mdown::archive::check_for_metadata;
use mdown::args::{ArgValue, Args, Commands, ParserArgs, Settings};
use mdown::chapter::{
    chapter_step, get_arg, parse_offset, resolve_skip, title, volume_label, ChapterAction, ChapterFacts, ChapterPlan,
    ChapterState, Entry,
};
use mdown::dat::{
    add_new_chapters, apply_check, check_report, find_manga, record_download, refresh_chapters, remove_entries,
    sort_chapters_by_number, LinksMetadata, MangaMetadata,
};
use mdown::error::{suspend_error, MdownError};
use mdown::ids::{is_valid_uuid, resolve_regex};
use mdown::images::{batches, page_label};
use mdown::logs::{
    after_pause, clean_message, close_sessions, part_label, part_of_label, pauses_at, probable_kind, record_message,
    select_index, session_kind, sort_texts, Log, LogSession, PageKey,
};
use mdown::metadata::{ChapterMetadata, ChapterMetadataIn, ScanlationMetadata, TagMetadata};
use mdown::paths::{only_service_files, is_directory_empty, get_bac_path, get_dat_path, get_db_path, get_error_html, get_log_lock_path, get_log_path, log_end, resolve_move};
use mdown::query::{get_query, query_get};
use mdown::resolve::{
    check_language, chosen_name, classify_tags, cover_file, language_list, LangValue, LanguageCheck, RelValue,
    TagAttributes, TagValue,
};
use mdown::route::{decode, encode, web_route, WebRoute};
use mdown::feed::{feed_on_page, feed_start, FeedAction};
use mdown::run::{end_of_session, leading_status, plain_run, removes_manga_folder, run_flags, start_mode, uses_screen, RunFlags, StartMode};
use mdown::settings::{
    resolve_settings, resource_bytes, resource_text, settings_ops, skip_resource, stored_flag, tutorial_decision,
    ResourceOp,
};
use mdown::show::{archive_lines, check_for_metadata_saver, join_listed, manga_summary, show_choice, ShowChoice};
use mdown::text::process_filename;
use mdown::stats::{group_line, group_metadata, statistics_markdown, CommentThread};
use mdown::filename::get_folder_name;
use mdown::metadata::RatingDistribution;
use mdown::title::{get_manga_name, TitleData, TitleEntry};
use mdown::version::{
    checksum_for, get_current_version, remove_prerelease, search_url, split_lines, target_file, update_available,
    verify_checksum,
};

fn chapter(number: &str, date: &str, id: &str) -> ChapterMetadata {
    ChapterMetadata::new(number, date, id)
}

fn numbers(cs: &[ChapterMetadata]) -> Vec<String> {
    cs.iter().map(|c| c.number.clone()).collect()
}

fn manga(name: &str, chapters: Vec<ChapterMetadata>) -> MangaMetadata {
    MangaMetadata {
        name: name.to_string(),
        id: format!("{}-id", name),
        chapters,
        mwd: format!("C:\\{}", name),
        cover: false,
        date: vec!["2024-01-01".to_string(), "2024-02-01".to_string()],
        available_languages: vec!["en".to_string(), "ja".to_string()],
        current_language: "en".to_string(),
        theme: vec![TagMetadata::new("Magic", "t1")],
        genre: vec![],
        links: LinksMetadata::default(),
    }
}

fn parser_args() -> ParserArgs {
    ParserArgs {
        url: "UNSPECIFIED".to_string(),
        info: String::new(),
        lang: "en".to_string(),
        title: "*".to_string(),
        folder: ".".to_string(),
        volume: "*".to_string(),
        chapter: "*".to_string(),
        saver: false,
        stat: false,
        quiet: false,
        max_consecutive: 40,
        force: false,
        offset: "0".to_string(),
        database_offset: "0".to_string(),
        unsorted: false,
        cwd: ".".to_string(),
        encode: String::new(),
        log: false,
        tutorial: false,
        skip_tutorial: false,
        search: "*".to_string(),
        music: None,
        web: false,
        server: false,
        gui: false,
        debug: false,
        debug_file: false,
        dev: false,
        subcommands: None,
    }
}

#[test]
fn filename_keeps_allowed_and_drops_forbidden() {
    assert_eq!(process_filename("a<b>c:d|e?f*g/h\\i\"j"), "abcdefghij");
    assert_eq!(process_filename(&process_filename("x:y")), "xy");
}

#[test]
fn manga_name_is_cut_to_seventy_bytes() {
    let long = "a".repeat(80);
    let data = TitleData {
        title: Some(vec![TitleEntry { lang: "en".to_string(), text: Some(long.clone()), json: format!("\"{}\"", long) }]),
        alt_titles: None,
    };
    let name = get_manga_name(&data, "en");
    assert_eq!(name, format!("{}__", "a".repeat(70)));
}

#[test]
fn manga_name_drops_quotes_question_marks_and_forbidden_characters() {
    let data = TitleData {
        title: Some(vec![TitleEntry {
            lang: "en".to_string(),
            text: Some("  What? \"Is\" This: A/B  ".to_string()),
            json: String::new(),
        }]),
        alt_titles: None,
    };
    assert_eq!(get_manga_name(&data, "en"), "What Is This AB");
}

#[test]
fn regex_capture_gives_the_id() {
    assert_eq!(resolve_regex("see https://mangadex.org/title/ab-12/name"), Some("ab-12".to_string()));
}

#[test]
fn uuid_check_accepts_only_uuids() {
    assert!(is_valid_uuid("123e4567-e89b-12d3-a456-426614174000"));
    assert!(!is_valid_uuid("12345"));
}

#[test]
fn query_last_parameter_wins() {
    let parts = vec!["GET", "/manga?url=a&id=1&url=b"];
    let params = get_query(&parts);
    assert_eq!(params.len(), 3);
    assert_eq!(query_get(&params, "url"), Some("b".to_string()));
    assert_eq!(query_get(&params, "id"), Some("1".to_string()));
    assert_eq!(query_get(&params, "none"), None);
}

#[test]
fn percent_coding_round_trip() {
    assert_eq!(encode("a b/c"), "a%20b%2Fc");
    assert_eq!(decode("a%20b%2Fc"), "a b/c");
    assert_eq!(encode("hello world"), "hello%20world");
    assert_eq!(decode("hello%20world"), "hello world");
    for s in ["", "x", "100% sure?", "\u{e9}t\u{e9} \u{3042}", "a+b=c&d"] {
        assert_eq!(decode(&encode(s)), s);
    }
    assert_eq!(encode("\u{e9}"), "%C3%A9");
    assert_eq!(decode("%c3%a9"), "\u{e9}");
    assert_eq!(decode("%zz%4"), "%zz%4");
    assert_eq!(decode("%FF"), "\u{fffd}");
}

#[test]
fn web_routes() {
    match web_route("GET /manga?url=https%3A%2F%2Fx&id=42 HTTP/1.1") {
        WebRoute::Download { url, handle_id } => {
            assert_eq!(url, "https://x");
            assert_eq!(handle_id, "42");
        }
        other => panic!("unexpected {:?}", other),
    }
    assert!(matches!(web_route("GET / HTTP/1.1"), WebRoute::Main));
    assert!(matches!(web_route("GET /nothing HTTP/1.1"), WebRoute::NotFound));
    assert!(matches!(web_route("GET"), WebRoute::Invalid));
}

#[test]
fn settings_change_folder_only_when_default() {
    let mut args = Args::from_args(parser_args());
    args.change_settings(Settings { folder: "Manga".to_string(), stat: true, backup: false });
    assert_eq!(args.folder, "Manga");
    assert!(args.stat);
    assert!(!args.backup);
    let mut p = parser_args();
    p.folder = "Mine".to_string();
    let mut args = Args::from_args(p);
    args.change("folder", ArgValue::Str("Other".to_string()));
    assert_eq!(args.folder, "Mine");
}

#[test]
fn from_args_takes_database_subcommand_flags() {
    let mut p = parser_args();
    p.subcommands = Some(Commands::Database {
        check: true,
        update: false,
        show: Some(None),
        show_all: None,
        show_log: false,
        show_settings: false,
        backup_choose: false,
    });
    let args = Args::from_args(p);
    assert!(args.check);
    assert!(!args.update);
    assert_eq!(args.show, Some(None));
}

#[test]
fn chapter_helpers() {
    assert_eq!(title("Finale.".to_string()), "Finale");
    assert_eq!(title("Finale".to_string()), "Finale");
    assert!(!resolve_skip("*", "5"));
    assert!(!resolve_skip("5", "5"));
    assert!(resolve_skip("4", "5"));
    assert_eq!(get_arg(""), "*");
    assert_eq!(get_arg("3"), "3");
    assert_eq!(volume_label(&Some("2".to_string())), "Vol.2 ");
    assert_eq!(parse_offset("12"), 12);
    assert_eq!(parse_offset("x"), 0);
}

#[test]
fn chapter_navigation() {
    let cs = vec![chapter("1", "d", "a"), chapter("2", "d", "b"), chapter("3", "d", "c")];
    let next = cs[0].get_next_chapter(&cs).unwrap();
    assert_eq!(next.id, "b");
    let back = next.get_previous_chapter(&cs).unwrap();
    assert_eq!(back.id, "a");
    assert!(cs[2].get_next_chapter(&cs).is_none());
    assert!(cs[0].get_previous_chapter(&cs).is_none());
    assert_eq!(chapter("10.5", "", "").parse_number(), vec![10, 5]);
}

#[test]
fn batches_cover_all_pages() {
    assert_eq!(batches(10, 4), vec![(0, 4), (4, 8), (8, 10)]);
    assert_eq!(batches(0, 4), vec![]);
    assert_eq!(page_label(7), "7  ");
}

#[test]
fn sorting_chapters_by_number_is_stable() {
    let sorted = sort_chapters_by_number(vec![
        chapter("10", "", "a"),
        chapter("2", "", "b"),
        chapter("x", "", "c"),
        chapter("2", "", "d"),
    ]);
    assert_eq!(numbers(&sorted), vec!["x", "2", "2", "10"]);
    assert_eq!(sorted[1].id, "b");
    assert_eq!(sorted[2].id, "d");
}

#[test]
fn recording_a_download_twice_adds_nothing_more() {
    let mut existing = vec![chapter("1", "", "a")];
    let found = vec![chapter("3", "", "c"), chapter("1", "", "a"), chapter("2", "", "b")];
    add_new_chapters(&mut existing, &found);
    assert_eq!(numbers(&existing), vec!["1", "2", "3"]);
    add_new_chapters(&mut existing, &found);
    assert_eq!(numbers(&existing), vec!["1", "2", "3"]);
}

#[test]
fn record_download_adds_or_extends() {
    let mut data = vec![manga("A", vec![chapter("1", "", "a")])];
    record_download(&mut data, manga("B", vec![chapter("5", "", "e")]));
    assert_eq!(data.len(), 2);
    record_download(&mut data, manga("A", vec![chapter("2", "", "b")]));
    assert_eq!(data.len(), 2);
    assert_eq!(numbers(&data[0].chapters), vec!["1", "2"]);
    assert_eq!(find_manga(&data, "B"), Some(1));
    assert_eq!(find_manga(&data, "C"), None);
}

#[test]
fn refresh_removes_then_appends() {
    let current = vec![chapter("1", "d1", "a"), chapter("2", "d2", "b")];
    let remove = vec![chapter("2", "d2", "b")];
    let found = vec![chapter("2", "d3", "b"), chapter("1", "d1", "a"), chapter("2", "d3", "b")];
    let r = refresh_chapters(&current, &remove, &found);
    assert_eq!(numbers(&r), vec!["1", "2"]);
    assert_eq!(r[1].updated_at, "d3");
}

#[test]
fn apply_check_drops_empty_entries_without_cover() {
    let mut item = manga("A", vec![chapter("1", "d", "a")]);
    let remove = vec![chapter("1", "d", "a")];
    let keep = apply_check(&mut item, &remove, &vec![], false, true, false);
    assert!(!keep);
    assert!(item.chapters.is_empty());
    let mut item = manga("A", vec![]);
    assert!(apply_check(&mut item, &vec![], &vec![], true, true, false));
    assert!(item.cover);
}

#[test]
fn check_report_lines() {
    let lines = check_report("A", "id1", &vec!["3".to_string()], &vec!["2".to_string()], &vec![], true);
    assert_eq!(lines, vec!["Checked A (id1)", "Chapters available", " 3", " 2 (OUTDATED CHAPTER)"]);
    let lines = check_report("A", "id1", &vec![], &vec![], &vec!["4".to_string()], false);
    assert_eq!(lines, vec!["Checked A (id1)", "Chapters ERROR", " 4 (CORRUPT DATE) (FIXED)", "Cover is not downloaded"]);
    let lines = check_report("A", "id1", &vec![], &vec![], &vec![], true);
    assert_eq!(lines, vec!["Checked A (id1)", "Up to-date"]);
}

#[test]
fn removing_listed_entries_keeps_order() {
    let mut data = vec![manga("A", vec![]), manga("B", vec![]), manga("C", vec![])];
    remove_entries(&mut data, &vec![0, 2]);
    assert_eq!(data.len(), 1);
    assert_eq!(data[0].name, "B");
}

#[test]
fn show_choices() {
    assert_eq!(show_choice(&None, &None, "x"), ShowChoice::Stop);
    assert_eq!(show_choice(&Some(None), &None, "x"), ShowChoice::Print);
    assert_eq!(show_choice(&Some(Some("y".to_string())), &None, "x"), ShowChoice::Skip);
    assert_eq!(show_choice(&Some(Some("x".to_string())), &None, "x"), ShowChoice::Print);
    assert_eq!(show_choice(&Some(Some("y".to_string())), &Some(None), "x"), ShowChoice::Print);
}

#[test]
fn joining_drops_every_trailing_separator() {
    assert_eq!(join_listed(&vec!["a".to_string(), "b".to_string()]), "a, b");
    assert_eq!(join_listed(&vec!["a".to_string(), ", ".to_string()]), "a");
    assert_eq!(join_listed(&vec![]), "");
}

#[test]
fn summary_and_archive_lines() {
    let item = manga("A", vec![chapter("\"1\"", "", "a"), chapter("2", "", "b")]);
    let lines = manga_summary(&item, true);
    assert_eq!(
        lines,
        vec![
            "",
            "------------------------------------",
            "Manga name: A",
            "MWD: C:\\A",
            "ID: A-id",
            "Database fetched: 2024-01-01, 2024-02-01",
            "Themes: Magic",
            "Cover: true",
            "Language: en",
            "Available language: en, ja",
            "Chapters: 1, 2",
            "",
        ]
    );
    let meta = ChapterMetadataIn {
        name: "A".to_string(),
        id: "c1".to_string(),
        manga_id: "m".to_string(),
        saver: true,
        title: "T".to_string(),
        pages: "20".to_string(),
        chapter: "1".to_string(),
        volume: "null".to_string(),
        scanlation: ScanlationMetadata { name: "G".to_string(), website: "w".to_string() },
    };
    assert_eq!(archive_lines(&meta), vec!["Name: A", "Chapter: 1", "Pages: 20", "ID: c1", "Title: T", ""]);
    assert!(check_for_metadata_saver(&meta, false));
    assert!(!check_for_metadata_saver(&meta, true));
}

#[test]
fn error_messages_and_codes() {
    let e = MdownError::new();
    assert_eq!(e.code(), 11000);
    assert_eq!(e.into(), "Error: TestError Nothing to worry about Code 11000");
    assert_eq!(MdownError::JsonError("bad".to_string(), 5).into(), "bad Code: 5");
    assert_eq!(MdownError::NotFoundError("x".to_string(), 7).code(), 7);
    let io = MdownError::IoError(std::io::Error::new(std::io::ErrorKind::Other, "boom"), String::new(), 12);
    assert_eq!(io.into(), "boom Code: 12");
    let mut suspended = Vec::new();
    suspend_error(&mut suspended, MdownError::new());
    assert_eq!(suspended.len(), 1);
}

#[test]
fn settings_subcommand_operations() {
    let (ops, rejected) = settings_ops(&Some(Some("F".to_string())), &Some(Some("2".to_string())), &Some(None), true);
    assert!(rejected);
    let names: Vec<(bool, String)> = ops
        .iter()
        .map(|op| match op {
            ResourceOp::Write { name, .. } => (true, name.clone()),
            ResourceOp::Delete { name } => (false, name.clone()),
        })
        .collect();
    assert_eq!(
        names,
        vec![
            (true, "2001".to_string()),
            (false, "2004".to_string()),
            (false, "2001".to_string()),
            (false, "2002".to_string()),
            (false, "2003".to_string()),
            (false, "2004".to_string()),
        ]
    );
    let (ops, rejected) = settings_ops(&None, &Some(Some("1".to_string())), &None, false);
    assert!(!rejected);
    assert!(matches!(&ops[0], ResourceOp::Write { name, value } if name == "2002" && value == "1"));
}

#[test]
fn stored_resources_read_back() {
    let text = resource_text("hi".as_bytes().to_vec(), true).unwrap_or_else(|_| panic!("encode"));
    assert_eq!(text, "aGk=");
    assert_eq!(resource_bytes(&text, true), Some(b"hi".to_vec()));
    let plain = resource_text("héllo".as_bytes().to_vec(), false).unwrap_or_else(|_| panic!("utf8"));
    assert_eq!(plain, "héllo");
    assert_eq!(resource_bytes(&plain, false), Some("héllo".as_bytes().to_vec()));
    assert!(matches!(resource_text(vec![0xff, 0xfe], false), Err(MdownError::CustomError(_, _, 10604))));
    assert_eq!(resource_bytes("***", true), None);
}

#[test]
fn settings_from_store() {
    assert_eq!(stored_flag("1"), Some(true));
    assert_eq!(stored_flag("0"), Some(false));
    assert_eq!(stored_flag("yes"), None);
    let (s, errors) = resolve_settings(None, Some("x".to_string()), None, "Here", true);
    assert_eq!(s.folder, "Here");
    assert!(!s.stat);
    assert!(s.backup);
    assert_eq!(errors.len(), 1);
    assert_eq!(errors[0].code(), 10622);
    let (s, errors) = resolve_settings(Some("Saved".to_string()), Some("1".to_string()), Some("0".to_string()), "Here", false);
    assert_eq!(s.folder, "Saved");
    assert!(s.stat);
    assert!(!s.backup);
    assert!(errors.is_empty());
}

#[test]
fn tutorial_and_setup_decisions() {
    assert_eq!(tutorial_decision(None, true, false, false), (true, true));
    assert_eq!(tutorial_decision(None, false, false, false), (false, false));
    assert_eq!(tutorial_decision(Some("1"), false, false, true), (false, false));
    assert_eq!(tutorial_decision(Some("0"), false, true, false), (true, false));
    assert!(skip_resource(&vec!["web".to_string()], false, false, true, true));
    assert!(!skip_resource(&vec!["web".to_string()], true, false, false, false));
    assert!(!skip_resource(&vec!["web".to_string()], false, true, false, false));
}

#[test]
fn manga_record_helpers() {
    let rels = vec![
        RelValue { kind: Some("author".to_string()), file_name: None },
        RelValue { kind: Some("cover_art".to_string()), file_name: Some("a.jpg".to_string()) },
        RelValue { kind: Some("cover_art".to_string()), file_name: Some("b.jpg".to_string()) },
    ];
    assert_eq!(cover_file(&rels), "b.jpg");
    assert_eq!(cover_file(&vec![]), "");
    let tags = vec![
        TagValue {
            id: Some("1".to_string()),
            attributes: Some(TagAttributes { group: Some("theme".to_string()), name_en: Some("Magic".to_string()) }),
        },
        TagValue {
            id: None,
            attributes: Some(TagAttributes { group: Some("genre".to_string()), name_en: Some("Action".to_string()) }),
        },
        TagValue {
            id: Some("3".to_string()),
            attributes: Some(TagAttributes { group: Some("format".to_string()), name_en: Some("Long".to_string()) }),
        },
        TagValue {
            id: Some("4".to_string()),
            attributes: Some(TagAttributes { group: Some("genre".to_string()), name_en: Some(String::new()) }),
        },
    ];
    let (theme, genre) = classify_tags(&tags);
    assert_eq!(theme.len(), 1);
    assert_eq!(theme[0].name, "Magic");
    assert_eq!(genre.len(), 1);
    assert_eq!(genre[0].name, "Action");
    assert_eq!(genre[0].id, "");
    assert_eq!(chosen_name("*", "From record".to_string()), "From record");
    assert_eq!(chosen_name("Mine", "From record".to_string()), "Mine");
}

#[test]
fn language_check_outcomes() {
    let langs = vec![
        LangValue { text: Some("en".to_string()), json: "\"en\"".to_string() },
        LangValue { text: Some("fr".to_string()), json: "\"fr\"".to_string() },
    ];
    assert!(matches!(check_language("fr", &Some("ja".to_string()), &Some(langs.clone())), Ok(LanguageCheck::Available)));
    assert!(matches!(check_language("*", &Some("ja".to_string()), &Some(langs.clone())), Ok(LanguageCheck::Available)));
    match check_language("de", &Some("ja".to_string()), &Some(langs.clone())) {
        Ok(LanguageCheck::Unavailable(lines)) => assert_eq!(
            lines,
            vec![
                "Language is not available\nSelected language: de",
                "Original language: ja",
                "Available languages: en fr ",
                "Choose from these    ^^^^^",
            ]
        ),
        other => panic!("unexpected {:?}", other),
    }
    assert!(matches!(check_language("de", &None, &Some(langs.clone())), Err(MdownError::NotFoundError(_, _))));
    let bad = vec![LangValue { text: None, json: "1".to_string() }];
    assert!(matches!(check_language("de", &Some("ja".to_string()), &Some(bad)), Err(MdownError::ConversionError(_, _))));
    assert_eq!(language_list(&langs), vec!["en", "fr"]);
}

fn flags() -> RunFlags {
    RunFlags {
        web: false,
        gui: false,
        server: false,
        check: false,
        update: false,
        quiet: false,
        log: false,
        reset: false,
        delete: false,
        show_log: false,
        show: false,
        show_all: false,
        encode: false,
    }
}

#[test]
fn start_modes() {
    let f = flags();
    assert_eq!(start_mode(&f), StartMode::Download);
    assert!(plain_run(&f));
    assert!(uses_screen(&f));
    let mut g = flags();
    g.web = true;
    g.check = true;
    assert_eq!(start_mode(&g), StartMode::Check);
    assert!(!uses_screen(&g));
    let mut h = flags();
    h.encode = true;
    h.reset = true;
    assert_eq!(start_mode(&h), StartMode::Encode);
    let args = Args::from_args(parser_args());
    assert_eq!(start_mode(&run_flags(&args)), StartMode::Download);
}

#[test]
fn status_from_error_messages() {
    assert_eq!(leading_status("404 Not Found Code: 3"), Some(404));
    assert_eq!(leading_status("  oops 500"), Some(0));
    assert_eq!(leading_status("   "), None);
}

#[test]
fn log_messages_and_sessions() {
    assert_eq!(clean_message("a\\nb\\tc\\\\d\\0"), "abcd");
    assert_eq!(session_kind("0123456789"), "web");
    assert_eq!(session_kind("0123456789abcdef"), "downloader");
    assert_eq!(session_kind("x"), "unknown");
    assert_eq!(probable_kind("0123456789ab"), "web");
    let mut sessions: Vec<LogSession> = Vec::new();
    let manga = ("A".to_string(), "id".to_string(), "dir".to_string());
    let m1 = Log { handle_id: "0123456789abcdef".to_string(), message: "one".to_string(), time: "t1".to_string(), name: "c1".to_string() };
    let m2 = Log { handle_id: "0123456789abcdef".to_string(), message: "two\\n".to_string(), time: "t2".to_string(), name: "c1".to_string() };
    let m3 = Log { handle_id: String::new(), message: "dropped".to_string(), time: "t3".to_string(), name: "c1".to_string() };
    record_message(&mut sessions, &m1, "now", &manga);
    record_message(&mut sessions, &m2, "later", &manga);
    record_message(&mut sessions, &m3, "later", &manga);
    assert_eq!(sessions.len(), 1);
    assert_eq!(sessions[0].kind, "downloader");
    assert_eq!(sessions[0].time_start, "now");
    let last = sessions[0].parts.iter().rev().find(|p| p.name == "c1").unwrap();
    assert_eq!(last.lines, vec!["t1  one", "t2  two"]);
    close_sessions(&mut sessions, &vec!["0123456789abcdef".to_string()], "end");
    assert_eq!(sessions[0].time_end, Some("end".to_string()));
    let fresh = Log::new("hello", "h", "c");
    assert_eq!(fresh.message, "hello");
}

#[test]
fn log_listing_helpers() {
    assert_eq!(select_index("1", 3).ok(), Some(1));
    assert!(matches!(select_index("3", 3), Err(MdownError::ConversionError(m, 0)) if m == "code"));
    assert!(matches!(select_index("x", 3), Err(MdownError::ConversionError(_, 0))));
    assert_eq!(sort_texts(vec!["b".to_string(), "a".to_string(), "ab".to_string()]), vec!["a", "ab", "b"]);
    assert!(!pauses_at(99, 0));
    assert!(pauses_at(100, 0));
    assert_eq!(after_pause(0, PageKey::Enter), 2);
    assert_eq!(after_pause(0, PageKey::Space), 50);
    assert_eq!(after_pause(7, PageKey::Other), 7);
    assert_eq!(part_label(""), "General");
    assert_eq!(part_of_label("General"), "");
    assert_eq!(part_of_label("c1"), "c1");
}

#[test]
fn versions() {
    assert_eq!(remove_prerelease("1.2.3-beta"), "1.2.3");
    assert_eq!(remove_prerelease("1.2.3"), "1.2.3");
    assert_eq!(get_current_version("0.14.0-dev"), "0.14.0");
    assert!(matches!(update_available(&Some("v9.9.9".to_string()), "1.0.0"), Ok(true)));
    assert!(matches!(update_available(&Some("v1.0.0".to_string()), "1.0.0"), Ok(false)));
    assert!(matches!(update_available(&Some("vx".to_string()), "1.0.0"), Err(MdownError::ConversionError(_, 11607))));
    assert!(matches!(update_available(&None, "1.0.0"), Err(MdownError::ConversionError(_, 11606))));
    assert!(matches!(update_available(&Some("v0.0.1".to_string()), "not a version"), Ok(true)));
    assert!(matches!(update_available(&Some("v0.0.0".to_string()), "not a version"), Ok(false)));
}

#[test]
fn release_assets_and_checksums() {
    let urls = Some(vec![None, Some("https://x/mdown_min.exe".to_string()), Some("https://x/mdown.exe".to_string())]);
    assert_eq!(search_url(&urls, "mdown.exe").ok(), Some("https://x/mdown.exe".to_string()));
    assert!(matches!(search_url(&urls, "other"), Err(MdownError::NotFoundError(_, 11620))));
    assert!(matches!(search_url(&None, "mdown.exe"), Err(MdownError::ConversionError(_, 11615))));
    assert_eq!(target_file("mdown_min.exe"), "mdown_min.exe");
    assert_eq!(target_file("renamed.exe"), "mdown.exe");
    let lines = split_lines("a\r\nb\n\nc");
    assert_eq!(lines, vec![vec!['a'], vec!['b'], vec![], vec!['c']]);
    let body = "Notes\n## SHA256\n\nmdown.exe\n\n  `abc123`  \nother";
    assert_eq!(checksum_for(body, "mdown.exe").ok(), Some("abc123".to_string()));
    assert!(matches!(checksum_for("no table", "mdown.exe"), Err(MdownError::NotFoundError(_, 11610))));
    let digest = "ba7816bf8f01cfea414140de5dae2223b00361a396177a9cb410ff61f20015ad";
    assert!(verify_checksum(b"abc", digest).is_ok());
    assert!(matches!(verify_checksum(b"abd", digest), Err(MdownError::CustomError(_, _, 11614))));
}

#[test]
fn program_paths_and_pages() {
    assert_eq!(get_bac_path("C:\\m"), "C:\\m\\backup");
    assert_eq!(get_dat_path("C:\\m"), "C:\\m\\dat.json");
    assert_eq!(get_db_path("C:\\m"), "C:\\m\\resources.db");
    assert_eq!(get_log_path("C:\\m"), "C:\\m\\log.json");
    assert_eq!(get_log_lock_path("C:\\m"), "C:\\m\\log.lock");
    let mut ended = Vec::new();
    log_end(&mut ended, "h".to_string());
    assert_eq!(ended, vec!["h"]);
    assert!(get_error_html().contains("404 Error - Page Not Found"));
}

#[test]
fn history_scrolls() {
    let mut hist = vec!["a".to_string(), "bb".to_string(), "c".to_string()];
    let (moves, rows) = resolve_move(1, &mut hist, 2, 0, 10, 4);
    assert_eq!(moves, 2);
    assert_eq!(rows, vec![(2, "a   ".to_string()), (3, "bb  ".to_string())]);
    let (moves, rows) = resolve_move(8, &mut hist, 2, 0, 10, 1);
    assert_eq!(moves, 8);
    assert_eq!(hist, vec!["bb", "c"]);
    assert_eq!(rows, vec![(2, "bb".to_string()), (3, "c".to_string())]);
}

fn archive_with(name: &str, text: &str) -> Vec<u8> {
    let mut cursor = std::io::Cursor::new(Vec::new());
    {
        let mut zip = zip::ZipWriter::new(&mut cursor);
        let options = zip::write::FileOptions::default().compression_method(zip::CompressionMethod::Stored);
        zip.start_file(name, options).unwrap();
        zip.write_all(text.as_bytes()).unwrap();
        zip.finish().unwrap();
    }
    cursor.into_inner()
}

#[test]
fn archive_metadata() {
    let bytes = archive_with("_metadata", "{\"name\":\"A\"}");
    assert_eq!(check_for_metadata(&bytes).ok(), Some("{\"name\":\"A\"}".to_string()));
    let other = archive_with("page.png", "x");
    assert!(matches!(check_for_metadata(&other), Err(MdownError::NotFoundError(_, 10714))));
    assert!(matches!(check_for_metadata(b"not a zip"), Err(MdownError::ZipError(_, 10710))));
    let text = archive_with("_metadata", "{\"saver\":true}");
    assert_eq!(check_for_metadata(&text).ok(), Some("{\"saver\":true}".to_string()));
}

fn plan() -> ChapterPlan {
    ChapterPlan {
        language: "en".to_string(),
        arg_volume: "*".to_string(),
        arg_chapter: "*".to_string(),
        arg_offset: 0,
        force: false,
        check: false,
        update: false,
        all_ids: vec![],
    }
}

fn state(stored: &str) -> ChapterState {
    ChapterState {
        chapters: vec![],
        chapters_to_remove: vec![],
        fixed_dates: vec![],
        chapter_dates: vec![Entry { key: "1".to_string(), value: stored.to_string() }],
        chapter_ids: vec![],
        to_download: vec![],
        to_download_date: vec![],
        times: 0,
        parsed: 0,
        parsed_max: 10,
    }
}

fn facts() -> ChapterFacts {
    ChapterFacts {
        id: "c1".to_string(),
        lang: "en".to_string(),
        pages: 12,
        chapter_num: "1".to_string(),
        vol: String::new(),
        volume: String::new(),
        updated_at: "2024-05-01T10:00:00+00:00".to_string(),
        file_exists: true,
        saver_differs: false,
    }
}

#[test]
fn volume_option_selects_by_bare_volume_number() {
    let mut p = plan();
    p.arg_volume = "1".to_string();
    let mut f = facts();
    f.file_exists = false;
    f.vol = "Vol.1 ".to_string();
    f.volume = "1".to_string();
    let mut s = state("2024-05-01T10:00:00+00:00");
    assert_eq!(chapter_step(&p, &mut s, &f), ChapterAction::Download);
    f.vol = "Vol.2 ".to_string();
    f.volume = "2".to_string();
    let mut s = state("2024-05-01T10:00:00+00:00");
    assert_eq!(chapter_step(&p, &mut s, &f), ChapterAction::SkipVolume);
}

#[test]
fn downloaded_chapter_is_fetched_again_only_when_updated() {
    let mut s = state("2024-05-01T10:00:00+00:00");
    assert_eq!(chapter_step(&plan(), &mut s, &facts()), ChapterAction::SkipDownloaded);
    assert_eq!(s.chapters.len(), 1);
    let mut s = state("2024-04-01T10:00:00+00:00");
    assert_eq!(chapter_step(&plan(), &mut s, &facts()), ChapterAction::Download);
    let mut s = state("2024-06-01T10:00:00+00:00");
    assert_eq!(chapter_step(&plan(), &mut s, &facts()), ChapterAction::SkipDownloaded);
    assert_eq!(s.fixed_dates, vec!["1"]);
}

#[test]
fn statistics_file_text() {
    let d = RatingDistribution { one: 1, two: 0, three: 0, four: 0, five: 0, six: 0, seven: 0, eight: 0, nine: 0, ten: 5 };
    let text = statistics_markdown("A", "8.5", "8.1", &d, 12, Some(CommentThread { thread_id: 9, replies_count: 3 }));
    let expected = String::from("# A\n\n---\n\n## RATING\n\nRating: 8.5\n\nBayesian: 8.1\n\n---\n\n")
        + "1: 1\n\n2: 0\n\n3: 0\n\n4: 0\n\n5: 0\n\n6: 0\n\n7: 0\n\n8: 0\n\n9: 0\n\n10: 5\n\n"
        + "## Follows: 12\n\n"
        + "## Comments\n\nThread: <https://forums.mangadex.org/threads/9>\n\nNumber of comments in thread: 3\n";
    assert_eq!(text, expected);
}

#[test]
fn scanlation_group_records() {
    assert_eq!(group_metadata(&None, &Some("w".to_string())), ("Unknown".to_string(), String::new()));
    assert_eq!(group_metadata(&Some("G".to_string()), &None), ("G".to_string(), "None".to_string()));
    assert_eq!(group_line("G", "w"), Some("G - w\n".to_string()));
    assert_eq!(group_line("null", "w"), None);
}

#[test]
fn folder_and_name_checks() {
    assert_eq!(get_folder_name("name", "Manga"), "Manga");
    assert_eq!(get_folder_name("dl:x", "Manga"), "dlx");
    let short = TitleData { title: None, alt_titles: None };
    assert_eq!(get_manga_name(&short, "en"), "Unrecognized title");
}

fn english_title(text: &str) -> TitleData {
    TitleData {
        title: Some(vec![TitleEntry { lang: "en".to_string(), text: Some(text.to_string()), json: String::new() }]),
        alt_titles: None,
    }
}

#[test]
fn manga_name_limit_counts_characters() {
    let wide = "\u{3042}".repeat(24);
    assert_eq!(get_manga_name(&english_title(&wide), "en"), wide);
    let accented = "\u{e9}".repeat(80);
    let expected = "\u{e9}".repeat(70) + "__";
    assert_eq!(get_manga_name(&english_title(&accented), "en"), expected);
    let mut edge = "a".repeat(69);
    edge.push('\u{e9}');
    assert_eq!(get_manga_name(&english_title(&edge), "en"), edge);
}

#[test]
fn manga_name_falls_back_to_main_titles_without_alternatives() {
    let data = TitleData {
        title: Some(vec![TitleEntry { lang: "ja-ro".to_string(), text: Some("Wan Pisu".to_string()), json: String::new() }]),
        alt_titles: None,
    };
    assert_eq!(get_manga_name(&data, "en"), "Wan Pisu");
    let data = TitleData {
        title: Some(vec![TitleEntry { lang: "en".to_string(), text: Some("One Piece".to_string()), json: String::new() }]),
        alt_titles: None,
    };
    assert_eq!(get_manga_name(&data, "ja"), "One Piece");
}

#[test]
fn ending_a_session() {
    let end = end_of_session(404, "A");
    assert_eq!(end.screen, vec!["Id was not found, please recheck the id and try again"]);
    assert_eq!(end.message, "Ending session: A has NOT been downloaded, because: \"Not Found\"");
    let end = end_of_session(503, "A");
    assert_eq!(end.screen, vec!["Server error: 503 Service Unavailable: \"Service Unavailable\""]);
    assert_eq!(end.message, "Ending session: A has NOT been downloaded");
    let end = end_of_session(200, "!");
    assert_eq!(end.screen.len(), 3);
    assert_eq!(end.message, "Ending session: ! has NOT been downloaded, because it was not found");
    assert_eq!(end_of_session(200, "A").message, "Ending session: A has been downloaded");
    assert!(end_of_session(200, "A").screen.is_empty());
}

#[test]
fn empty_download_folders() {
    assert!(is_directory_empty(&vec![]));
    assert!(is_directory_empty(&vec!["a".to_string()]));
    assert!(!is_directory_empty(&vec!["a".to_string(), "b".to_string()]));
    assert!(is_directory_empty(&vec!["a".to_string(), ".cache/mdown_final_end.lock".to_string()]));
}

#[test]
fn every_error_kind_carries_its_code() {
    let status = MdownError::StatusError(reqwest::StatusCode::NOT_FOUND, 21);
    assert_eq!(status.code(), 21);
    assert!(status.into().ends_with(" Code: 21"));
    let regex_error = regex::Regex::new("(").err().unwrap();
    let regex = MdownError::RegexError(regex_error, 22);
    assert_eq!(regex.code(), 22);
    assert!(regex.into().ends_with(" Code: 22"));
    let db = MdownError::DatabaseError(rusqlite::Error::InvalidQuery, 23);
    assert_eq!(db.code(), 23);
    assert!(db.into().ends_with(" Code: 23"));
    assert_eq!(MdownError::ConversionError("c".to_string(), 24).into(), "c Code: 24");
    assert_eq!(MdownError::NotFoundError("n".to_string(), 25).into(), "n Code: 25");
    assert_eq!(MdownError::CustomError("m".to_string(), "K".to_string(), 26).into(), "Error: K m Code 26");
    assert_eq!(MdownError::CustomError("m".to_string(), "K".to_string(), 4_000_000_000).code(), 4_000_000_000u32 as i32);
}

#[test]
fn folders_with_only_service_files() {
    assert!(only_service_files(&vec!["_cover.png".to_string(), "x_statistics.md".to_string()]));
    assert!(!only_service_files(&vec!["_cover.png".to_string(), "A - Ch.1.cbz".to_string()]));
    assert!(only_service_files(&vec![]));
}

#[test]
fn error_descriptions_and_report_lines() {
    let e = MdownError::JsonError("bad".to_string(), 5);
    assert_eq!(e.describe(), "Json error: bad (5)");
    assert_eq!(e.report_line(Some("program")), "Error: Json error: bad (5) (program)");
    assert_eq!(e.report_line(None), "Error: Json error: bad (5)");
    let c = MdownError::CustomError("stat should be 1 or 0".to_string(), "UserError".to_string(), 10622);
    assert_eq!(c.describe(), "UserError error: stat should be 1 or 0 (10622)");
    let io = MdownError::IoError(std::io::Error::new(std::io::ErrorKind::Other, "boom"), "f.txt".to_string(), 3);
    assert_eq!(io.describe(), "I/O error: boom (f.txt) (3)");
    assert_eq!(io.report_line(Some("suspended")), "Error: IO Error boom in file f.txt (suspended) Code: 3");
    let io = MdownError::IoError(std::io::Error::new(std::io::ErrorKind::Other, "boom"), String::new(), 4);
    assert_eq!(io.report_line(None), "Error: IO Error boom () Code: 4");
    assert_eq!(MdownError::NotFoundError("x".to_string(), 1).describe(), "NotFound error: Didn't found x (1)");
}

#[test]
fn folder_of_a_run_without_eligible_chapters_is_removed() {
    let f = flags();
    assert!(removes_manga_folder(&f, 0, false));
    assert!(!removes_manga_folder(&f, 1, false));
    assert!(!removes_manga_folder(&f, 0, true));
    let mut web = flags();
    web.web = true;
    assert!(!removes_manga_folder(&web, 0, false));
    let mut quiet = flags();
    quiet.quiet = true;
    assert!(removes_manga_folder(&quiet, 0, false));
}

fn chapter_with_id(id: &str) -> mdown::metadata::ChapterResponse {
    mdown::metadata::ChapterResponse {
        id: id.to_string(),
        kind: "chapter".to_string(),
        attributes: mdown::metadata::ChapterAttrResponse {
            volume: None,
            chapter: Some("1".to_string()),
            title: None,
            translated_language: Some("en".to_string()),
            external_url: None,
            publish_at: String::new(),
            readable_at: String::new(),
            created_at: String::new(),
            updated_at: String::new(),
            pages: 1,
            version: 1,
        },
        relationships: vec![],
    }
}

#[test]
fn feed_pages_are_all_gathered() {
    let (mut state, action) = feed_start(7);
    assert_eq!(action, FeedAction::Fetch(7));
    let full: Vec<_> = (0..500).map(|i| chapter_with_id(&format!("a{}", i))).collect();
    assert_eq!(feed_on_page(&mut state, Some(full)), FeedAction::Fetch(507));
    let full: Vec<_> = (0..500).map(|i| chapter_with_id(&format!("b{}", i))).collect();
    assert_eq!(feed_on_page(&mut state, Some(full)), FeedAction::Fetch(1007));
    let last = vec![chapter_with_id("c0"), chapter_with_id("c1")];
    assert_eq!(feed_on_page(&mut state, Some(last)), FeedAction::Finish { count: 2 });
    assert_eq!(state.chapters.len(), 1002);
    assert_eq!(state.chapters[0].id, "a0");
    assert_eq!(state.chapters[500].id, "b0");
    assert_eq!(state.chapters[1001].id, "c1");
    let (mut empty, _) = feed_start(0);
    assert_eq!(feed_on_page(&mut empty, None), FeedAction::Finish { count: 0 });
    assert!(empty.chapters.is_empty());
}
