//! What `database --show` and `--show-all` print for the manga in the database.

use vstd::prelude::*;
use vstd::string::*;
use crate::dat::MangaMetadata;
use crate::metadata::ChapterMetadataIn;
use crate::text::{str_chars, chars_to_string, str_eq};

verus! {

/// What to do with one database entry while showing.
#[derive(Debug, Clone, Copy, PartialEq, Eq, Structural)]
pub enum ShowChoice {
    /// Neither listing was asked for: stop at once.
    Stop,
    /// A filter names another manga: pass over this one.
    Skip,
    /// Print this entry.
    Print,
}

/// The choice for an entry with id `id`, given the `--show` and `--show-all` options
/// (absent, given bare or empty, or given a manga id).
pub open spec fn show_choice_spec(
    show: Option<Option<Seq<char>>>,
    show_all: Option<Option<Seq<char>>>,
    id: Seq<char>,
) -> ShowChoice {
    let show_filtered = show matches Some(Some(f)) && f.len() > 0;
    let all_filtered = show_all matches Some(Some(f)) && f.len() > 0;
    let show_miss = show_filtered && show->0->0 != id;
    let all_miss = all_filtered && show_all->0->0 != id;
    let skip = if all_filtered { show_miss || all_miss } else if show_all is Some { false } else { show_miss };
    if show is None && show_all is None {
        ShowChoice::Stop
    } else if skip {
        ShowChoice::Skip
    } else {
        ShowChoice::Print
    }
}

/// The view of an option given to `--show` or `--show-all`.
pub open spec fn filter_view(o: Option<Option<String>>) -> Option<Option<Seq<char>>> {
    match o {
        None => None,
        Some(None) => Some(None),
        Some(Some(f)) => Some(Some(f@)),
    }
}

/// Whether the entry with id `id` is shown, passed over, or ends the listing.
pub fn show_choice(show: &Option<Option<String>>, show_all: &Option<Option<String>>, id: &str) -> (r:
    ShowChoice)
    ensures
        r == show_choice_spec(filter_view(*show), filter_view(*show_all), id@),
{
    let mut cont = false;
    let shown = match show {
        Some(Some(f)) => {
            if f.as_str().unicode_len() > 0 && !str_eq(id, f.as_str()) {
                cont = true;
            }
            true
        },
        Some(None) => true,
        None => false,
    };
    let shown_all = match show_all {
        Some(Some(f)) if f.as_str().unicode_len() > 0 => {
            if !str_eq(id, f.as_str()) {
                cont = true;
            }
            true
        },
        Some(_) => {
            cont = false;
            true
        },
        None => false,
    };
    if !shown && !shown_all {
        ShowChoice::Stop
    } else if cont {
        ShowChoice::Skip
    } else {
        ShowChoice::Print
    }
}

/// `s` without every trailing `", "` (`trim_end_matches(", ")`).
pub open spec fn trim_sep(s: Seq<char>) -> Seq<char>
    decreases s.len(),
{
    if s.len() >= 2 && s[s.len() - 2] == ',' && s[s.len() - 1] == ' ' {
        trim_sep(s.subrange(0, s.len() - 2))
    } else {
        s
    }
}

/// Each item followed by `", "`.
pub open spec fn listed_raw(items: Seq<Seq<char>>) -> Seq<char>
    decreases items.len(),
{
    if items.len() == 0 {
        seq![]
    } else {
        listed_raw(items.drop_last()) + items.last() + ", "@
    }
}

/// The items separated by `", "`, as the listing prints them.
pub open spec fn joined(items: Seq<Seq<char>>) -> Seq<char> {
    trim_sep(listed_raw(items))
}

/// Views of a list of strings.
pub open spec fn string_views(v: Seq<String>) -> Seq<Seq<char>> {
    v.map_values(|s: String| s@)
}

/// Joins the items with `", "`, dropping every trailing separator.
pub fn join_listed(items: &Vec<String>) -> (r: String)
    ensures
        r@ == joined(string_views(items@)),
{
    proof {
        reveal_strlit(", ");
    }
    let mut raw: Vec<char> = Vec::new();
    let mut i: usize = 0;
    while i < items.len()
        invariant
            i <= items@.len(),
            raw@ == listed_raw(string_views(items@.subrange(0, i as int))),
        decreases items@.len() - i,
    {
        let ghost pre = string_views(items@.subrange(0, i + 1));
        assert(pre.drop_last() == string_views(items@.subrange(0, i as int)));
        assert(pre.last() == items@[i as int]@);
        let cs = str_chars(items[i].as_str());
        let mut j: usize = 0;
        let ghost base = raw@;
        while j < cs.len()
            invariant
                j <= cs@.len(),
                raw@ == base + cs@.subrange(0, j as int),
            decreases cs@.len() - j,
        {
            raw.push(cs[j]);
            j = j + 1;
            assert(raw@ == base + cs@.subrange(0, j as int));
        }
        assert(cs@.subrange(0, cs@.len() as int) == cs@);
        raw.push(',');
        raw.push(' ');
        assert(raw@ == base + cs@ + ", "@) by {
            reveal_strlit(", ");
        }
        i = i + 1;
    }
    assert(items@.subrange(0, items@.len() as int) == items@);
    let mut e: usize = raw.len();
    assert(raw@.subrange(0, e as int) == raw@);
    while e >= 2 && raw[e - 2] == ',' && raw[e - 1] == ' '
        invariant
            e <= raw@.len(),
            trim_sep(raw@.subrange(0, e as int)) == trim_sep(raw@),
        decreases e,
    {
        assert(raw@.subrange(0, e as int).subrange(0, e - 2) == raw@.subrange(0, e - 2));
        e = e - 2;
    }
    let mut out: Vec<char> = Vec::new();
    let mut k: usize = 0;
    while k < e
        invariant
            k <= e <= raw@.len(),
            out@ == raw@.subrange(0, k as int),
        decreases e - k,
    {
        out.push(raw[k]);
        k = k + 1;
        assert(out@ == raw@.subrange(0, k as int));
    }
    chars_to_string(out.as_slice())
}

/// `s` without its double quotes.
pub open spec fn unquoted(s: Seq<char>) -> Seq<char>
    decreases s.len(),
{
    if s.len() == 0 {
        s
    } else if s.last() == '"' {
        unquoted(s.drop_last())
    } else {
        unquoted(s.drop_last()).push(s.last())
    }
}

pub fn remove_quotes(s: &str) -> (r: String)
    ensures
        r@ == unquoted(s@),
{
    let cs = str_chars(s);
    let mut out: Vec<char> = Vec::new();
    let mut i: usize = 0;
    while i < cs.len()
        invariant
            i <= cs@.len(),
            out@ == unquoted(cs@.subrange(0, i as int)),
        decreases cs@.len() - i,
    {
        assert(cs@.subrange(0, i + 1).drop_last() == cs@.subrange(0, i as int));
        if cs[i] != '"' {
            out.push(cs[i]);
        }
        i = i + 1;
    }
    assert(cs@.subrange(0, cs@.len() as int) == cs@);
    chars_to_string(out.as_slice())
}

/// `true` or `false`, as `Display` prints a `bool`.
pub open spec fn bool_text(b: bool) -> Seq<char> {
    if b { "true"@ } else { "false"@ }
}

/// The lines printed for one manga of the database; `cover` says whether its cover file
/// is on disk.
pub open spec fn manga_summary_spec(item: MangaMetadata, cover: bool) -> Seq<Seq<char>> {
    let genres = item.genre@.map_values(|t: crate::metadata::TagMetadata| t.name@);
    let themes = item.theme@.map_values(|t: crate::metadata::TagMetadata| t.name@);
    let chapters = item.chapters@.map_values(|c: crate::metadata::ChapterMetadata| unquoted(c.number@));
    seq![
        seq![],
        "------------------------------------"@,
        "Manga name: "@ + item.name@,
        "MWD: "@ + item.mwd@,
        "ID: "@ + item.id@,
        "Database fetched: "@ + joined(string_views(item.date@)),
    ] + (if genres.len() > 0 { seq!["Genres: "@ + joined(genres)] } else { seq![] }) + (if themes.len()
        > 0 {
        seq!["Themes: "@ + joined(themes)]
    } else {
        seq![]
    }) + seq![
        "Cover: "@ + bool_text(cover),
        "Language: "@ + item.current_language@,
        "Available language: "@ + joined(string_views(item.available_languages@)),
        "Chapters: "@ + joined(chapters),
        seq![],
    ]
}

fn line(prefix: &str, rest: &str) -> (r: String)
    ensures
        r@ == prefix@ + rest@,
{
    let mut s = String::from_str(prefix);
    s.append(rest);
    s
}

fn push_line(lines: &mut Vec<String>, l: String)
    ensures
        string_views(final(lines)@) == string_views(old(lines)@).push(l@),
{
    let ghost before = lines@;
    lines.push(l);
    assert(string_views(lines@) =~= string_views(before).push(l@));
}

/// The lines `database --show` prints for one manga: name, folder, id, fetch dates,
/// genres and themes when it has any, whether its cover is there, its language, the
/// languages it is available in and its chapter numbers.
pub fn manga_summary(item: &MangaMetadata, cover: bool) -> (lines: Vec<String>)
    ensures
        string_views(lines@) == manga_summary_spec(*item, cover),
{
    proof {
        reveal_strlit("------------------------------------");
        reveal_strlit("Manga name: ");
        reveal_strlit("MWD: ");
        reveal_strlit("ID: ");
        reveal_strlit("Database fetched: ");
        reveal_strlit("Genres: ");
        reveal_strlit("Themes: ");
        reveal_strlit("Cover: ");
        reveal_strlit("true");
        reveal_strlit("false");
        reveal_strlit("Language: ");
        reveal_strlit("Available language: ");
        reveal_strlit("Chapters: ");
    }
    let mut genres: Vec<String> = Vec::new();
    let mut i: usize = 0;
    while i < item.genre.len()
        invariant
            i <= item.genre@.len(),
            string_views(genres@) == item.genre@.subrange(0, i as int).map_values(
                |t: crate::metadata::TagMetadata| t.name@,
            ),
        decreases item.genre@.len() - i,
    {
        let ghost b = genres@;
        genres.push(item.genre[i].name.clone());
        assert(string_views(genres@) =~= string_views(b).push(item.genre@[i as int].name@));
        i = i + 1;
        assert(item.genre@.subrange(0, i as int).map_values(|t: crate::metadata::TagMetadata| t.name@)
            =~= item.genre@.subrange(0, i - 1).map_values(|t: crate::metadata::TagMetadata| t.name@).push(
            item.genre@[i - 1].name@,
        ));
    }
    assert(item.genre@.subrange(0, item.genre@.len() as int) == item.genre@);
    let mut themes: Vec<String> = Vec::new();
    let mut i: usize = 0;
    while i < item.theme.len()
        invariant
            i <= item.theme@.len(),
            string_views(themes@) == item.theme@.subrange(0, i as int).map_values(
                |t: crate::metadata::TagMetadata| t.name@,
            ),
        decreases item.theme@.len() - i,
    {
        let ghost b = themes@;
        themes.push(item.theme[i].name.clone());
        assert(string_views(themes@) =~= string_views(b).push(item.theme@[i as int].name@));
        i = i + 1;
        assert(item.theme@.subrange(0, i as int).map_values(|t: crate::metadata::TagMetadata| t.name@)
            =~= item.theme@.subrange(0, i - 1).map_values(|t: crate::metadata::TagMetadata| t.name@).push(
            item.theme@[i - 1].name@,
        ));
    }
    assert(item.theme@.subrange(0, item.theme@.len() as int) == item.theme@);
    let mut chapters: Vec<String> = Vec::new();
    let mut i: usize = 0;
    while i < item.chapters.len()
        invariant
            i <= item.chapters@.len(),
            string_views(chapters@) == item.chapters@.subrange(0, i as int).map_values(
                |c: crate::metadata::ChapterMetadata| unquoted(c.number@),
            ),
        decreases item.chapters@.len() - i,
    {
        let ghost b = chapters@;
        let n = remove_quotes(item.chapters[i].number.as_str());
        chapters.push(n);
        assert(string_views(chapters@) =~= string_views(b).push(unquoted(item.chapters@[i as int].number@)));
        i = i + 1;
        assert(item.chapters@.subrange(0, i as int).map_values(
            |c: crate::metadata::ChapterMetadata| unquoted(c.number@),
        ) =~= item.chapters@.subrange(0, i - 1).map_values(
            |c: crate::metadata::ChapterMetadata| unquoted(c.number@),
        ).push(unquoted(item.chapters@[i - 1].number@)));
    }
    assert(item.chapters@.subrange(0, item.chapters@.len() as int) == item.chapters@);
    let mut lines: Vec<String> = Vec::new();
    push_line(&mut lines, String::new());
    push_line(&mut lines, String::from_str("------------------------------------"));
    push_line(&mut lines, line("Manga name: ", item.name.as_str()));
    push_line(&mut lines, line("MWD: ", item.mwd.as_str()));
    push_line(&mut lines, line("ID: ", item.id.as_str()));
    push_line(&mut lines, line("Database fetched: ", join_listed(&item.date).as_str()));
    let ghost first = string_views(lines@);
    if genres.len() > 0 {
        push_line(&mut lines, line("Genres: ", join_listed(&genres).as_str()));
    }
    let ghost second = string_views(lines@);
    if themes.len() > 0 {
        push_line(&mut lines, line("Themes: ", join_listed(&themes).as_str()));
    }
    let ghost third = string_views(lines@);
    push_line(&mut lines, line("Cover: ", if cover { "true" } else { "false" }));
    push_line(&mut lines, line("Language: ", item.current_language.as_str()));
    push_line(&mut lines, line("Available language: ", join_listed(&item.available_languages).as_str()));
    push_line(&mut lines, line("Chapters: ", join_listed(&chapters).as_str()));
    push_line(&mut lines, String::new());
    assert(string_views(lines@) =~= manga_summary_spec(*item, cover));
    lines
}

/// The lines `--show-all` prints for one chapter archive: its name, its volume unless
/// that is `null`, chapter, pages, id and title.
pub open spec fn archive_lines_spec(m: ChapterMetadataIn) -> Seq<Seq<char>> {
    seq!["Name: "@ + m.name@] + (if m.volume@ != "null"@ { seq!["Volume: "@ + m.volume@] } else {
        seq![]
    }) + seq![
        "Chapter: "@ + m.chapter@,
        "Pages: "@ + m.pages@,
        "ID: "@ + m.id@,
        "Title: "@ + m.title@,
        seq![],
    ]
}

/// The lines printed for one chapter archive of a manga.
pub fn archive_lines(m: &ChapterMetadataIn) -> (lines: Vec<String>)
    ensures
        string_views(lines@) == archive_lines_spec(*m),
{
    let mut lines: Vec<String> = Vec::new();
    push_line(&mut lines, line("Name: ", m.name.as_str()));
    if !str_eq(m.volume.as_str(), "null") {
        push_line(&mut lines, line("Volume: ", m.volume.as_str()));
    }
    push_line(&mut lines, line("Chapter: ", m.chapter.as_str()));
    push_line(&mut lines, line("Pages: ", m.pages.as_str()));
    push_line(&mut lines, line("ID: ", m.id.as_str()));
    push_line(&mut lines, line("Title: ", m.title.as_str()));
    push_line(&mut lines, String::new());
    assert(string_views(lines@) =~= archive_lines_spec(*m));
    lines
}

/// Whether an archive was made with other images than those now asked for: its
/// metadata's saver flag differs from `saver`.
pub fn check_for_metadata_saver(metadata: &ChapterMetadataIn, saver: bool) -> (r: bool)
    ensures
        r == (metadata.saver != saver),
{
    metadata.saver != saver
}

} // verus!
