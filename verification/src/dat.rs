//! The database of downloaded manga (`dat.json`): adding a download, refreshing chapter
//! lists, and what `database --show` prints.

use vstd::prelude::*;
use vstd::string::*;
use crate::chapter::{chapter_view, chapters_view};
use crate::metadata::{ChapterMetadata, TagMetadata};
use crate::text::{parse_unsigned, parse_unsigned_chars, str_chars, str_eq};

verus! {

/// Links of a manga to other sites.
#[derive(Debug, Clone, Default)]
pub struct LinksMetadata {
    pub al: Option<String>,
    pub mal: Option<String>,
    pub amz: Option<String>,
    pub ebj: Option<String>,
    pub cdj: Option<String>,
    pub raw: Option<String>,
    pub engtl: Option<String>,
    pub mu: Option<String>,
    pub nu: Option<String>,
}

/// One downloaded manga.
#[derive(Debug, Clone)]
pub struct MangaMetadata {
    pub name: String,
    pub id: String,
    pub chapters: Vec<ChapterMetadata>,
    /// The folder that holds its archives.
    pub mwd: String,
    pub cover: bool,
    /// When its feed was fetched.
    pub date: Vec<String>,
    pub available_languages: Vec<String>,
    pub current_language: String,
    pub theme: Vec<TagMetadata>,
    pub genre: Vec<TagMetadata>,
    pub links: LinksMetadata,
}

/// Sort key of a chapter number: its value as `u32`, 0 when it does not parse.
pub open spec fn number_key(c: (Seq<char>, Seq<char>, Seq<char>)) -> nat {
    match parse_unsigned(c.0, 0xffff_ffff) {
        Some(v) => v,
        None => 0,
    }
}

/// `x` inserted after every element whose key is at most its own.
pub open spec fn insert_by_key(
    sorted: Seq<(Seq<char>, Seq<char>, Seq<char>)>,
    x: (Seq<char>, Seq<char>, Seq<char>),
) -> Seq<(Seq<char>, Seq<char>, Seq<char>)>
    decreases sorted.len(),
{
    if sorted.len() == 0 {
        seq![x]
    } else if number_key(sorted.last()) <= number_key(x) {
        sorted.push(x)
    } else {
        insert_by_key(sorted.drop_last(), x).push(sorted.last())
    }
}

/// The stable sort of chapter records by [`number_key`] (`slice::sort_by`).
pub open spec fn sort_by_number(s: Seq<(Seq<char>, Seq<char>, Seq<char>)>) -> Seq<
    (Seq<char>, Seq<char>, Seq<char>),
>
    decreases s.len(),
{
    if s.len() == 0 {
        s
    } else {
        insert_by_key(sort_by_number(s.drop_last()), s.last())
    }
}

fn number_key_exec(c: &ChapterMetadata) -> (k: u64)
    ensures
        k as nat == number_key(chapter_view(*c)),
{
    let chars = str_chars(c.number.as_str());
    match parse_unsigned_chars(chars.as_slice(), 0xffff_ffff) {
        Some(v) => v,
        None => 0,
    }
}

fn clone_chapter(c: &ChapterMetadata) -> (r: ChapterMetadata)
    ensures
        r == *c,
{
    ChapterMetadata { updated_at: c.updated_at.clone(), number: c.number.clone(), id: c.id.clone() }
}

proof fn lemma_view_push(cs: Seq<ChapterMetadata>, c: ChapterMetadata)
    ensures
        chapters_view(cs.push(c)) == chapters_view(cs).push(chapter_view(c)),
{
    assert(chapters_view(cs.push(c)) =~= chapters_view(cs).push(chapter_view(c)));
}

/// Inserts `x` into `sorted` after the records whose key is at most its own.
fn insert_sorted(sorted: Vec<ChapterMetadata>, x: ChapterMetadata) -> (r: Vec<ChapterMetadata>)
    ensures
        chapters_view(r@) == insert_by_key(chapters_view(sorted@), chapter_view(x)),
    decreases sorted@.len(),
{
    if sorted.len() == 0 {
        let mut r = Vec::new();
        r.push(x);
        assert(chapters_view(r@) =~= seq![chapter_view(x)]);
        return r;
    }
    let mut sorted = sorted;
    let ghost whole = sorted@;
    let last = sorted.pop().unwrap();
    assert(whole == sorted@.push(last));
    assert(chapters_view(whole).last() == chapter_view(last));
    assert(chapters_view(whole).drop_last() == chapters_view(sorted@));
    if number_key_exec(&last) <= number_key_exec(&x) {
        sorted.push(last);
        proof {
            lemma_view_push(whole, x);
        }
        sorted.push(x);
        sorted
    } else {
        let mut r = insert_sorted(sorted, x);
        proof {
            lemma_view_push(r@, last);
        }
        r.push(last);
        r
    }
}

/// Sorts chapter records by their number read as `u32` (0 when it does not parse),
/// keeping the order of equal keys.
pub fn sort_chapters_by_number(v: Vec<ChapterMetadata>) -> (r: Vec<ChapterMetadata>)
    ensures
        chapters_view(r@) == sort_by_number(chapters_view(v@)),
{
    let mut r: Vec<ChapterMetadata> = Vec::new();
    let mut i: usize = 0;
    while i < v.len()
        invariant
            i <= v@.len(),
            chapters_view(r@) == sort_by_number(chapters_view(v@.subrange(0, i as int))),
        decreases v@.len() - i,
    {
        let ghost pre = v@.subrange(0, i + 1);
        assert(pre.drop_last() == v@.subrange(0, i as int));
        assert(chapters_view(pre).drop_last() == chapters_view(v@.subrange(0, i as int)));
        assert(chapters_view(pre).last() == chapter_view(v@[i as int]));
        r = insert_sorted(r, clone_chapter(&v[i]));
        i = i + 1;
    }
    assert(v@.subrange(0, v@.len() as int) == v@);
    r
}

/// Whether some record has chapter number `number`.
pub open spec fn number_known(cs: Seq<ChapterMetadata>, number: Seq<char>) -> bool {
    exists|i: int| 0 <= i < cs.len() && #[trigger] cs[i].number@ == number
}

/// The records of `found` whose number is not among `existing`, in order.
pub open spec fn new_chapters(existing: Seq<ChapterMetadata>, found: Seq<ChapterMetadata>) -> Seq<
    (Seq<char>, Seq<char>, Seq<char>),
>
    decreases found.len(),
{
    if found.len() == 0 {
        seq![]
    } else {
        let prev = new_chapters(existing, found.drop_last());
        if number_known(existing, found.last().number@) {
            prev
        } else {
            prev.push(chapter_view(found.last()))
        }
    }
}

fn number_in(cs: &Vec<ChapterMetadata>, number: &str) -> (r: bool)
    ensures
        r == number_known(cs@, number@),
{
    let mut i: usize = 0;
    while i < cs.len()
        invariant
            i <= cs@.len(),
            forall|k: int| 0 <= k < i ==> cs@[k].number@ != number@,
        decreases cs@.len() - i,
    {
        if str_eq(cs[i].number.as_str(), number) {
            return true;
        }
        i = i + 1;
    }
    false
}

/// Adds to `existing` the chapters of `found` whose numbers it lacks, sorted by number;
/// this is how a new download extends a manga already in the database.
pub fn add_new_chapters(existing: &mut Vec<ChapterMetadata>, found: &Vec<ChapterMetadata>)
    ensures
        chapters_view(final(existing)@) == chapters_view(old(existing)@) + sort_by_number(
            new_chapters(old(existing)@, found@),
        ),
{
    let ghost old_existing = existing@;
    let mut fresh: Vec<ChapterMetadata> = Vec::new();
    let mut i: usize = 0;
    while i < found.len()
        invariant
            i <= found@.len(),
            existing@ == old_existing,
            chapters_view(fresh@) == new_chapters(old_existing, found@.subrange(0, i as int)),
        decreases found@.len() - i,
    {
        let ghost pre = found@.subrange(0, i + 1);
        assert(pre.drop_last() == found@.subrange(0, i as int));
        if !number_in(existing, found[i].number.as_str()) {
            proof {
                lemma_view_push(fresh@, found@[i as int]);
            }
            fresh.push(clone_chapter(&found[i]));
        }
        i = i + 1;
    }
    assert(found@.subrange(0, found@.len() as int) == found@);
    let sorted = sort_chapters_by_number(fresh);
    let mut j: usize = 0;
    let ghost base = chapters_view(existing@);
    while j < sorted.len()
        invariant
            j <= sorted@.len(),
            chapters_view(existing@) == base + chapters_view(sorted@).subrange(0, j as int),
        decreases sorted@.len() - j,
    {
        proof {
            lemma_view_push(existing@, sorted@[j as int]);
        }
        existing.push(clone_chapter(&sorted[j]));
        j = j + 1;
        assert(chapters_view(sorted@).subrange(0, j as int) == chapters_view(sorted@).subrange(
            0,
            j - 1,
        ).push(chapter_view(sorted@[j - 1])));
    }
    assert(chapters_view(sorted@).subrange(0, sorted@.len() as int) == chapters_view(sorted@));
}

/// Index of the first manga named `name`.
pub open spec fn manga_index(data: Seq<MangaMetadata>, name: Seq<char>) -> Option<int>
    decreases data.len(),
{
    if data.len() == 0 {
        None
    } else {
        match manga_index(data.drop_last(), name) {
            Some(i) => Some(i),
            None => if data.last().name@ == name { Some(data.len() - 1) } else { None },
        }
    }
}

proof fn lemma_manga_index_prefix(data: Seq<MangaMetadata>, name: Seq<char>, i: int)
    requires
        0 <= i <= data.len(),
        manga_index(data.subrange(0, i), name) is Some,
    ensures
        manga_index(data, name) == manga_index(data.subrange(0, i), name),
    decreases data.len() - i,
{
    if i < data.len() {
        assert(data.subrange(0, i + 1).drop_last() == data.subrange(0, i));
        lemma_manga_index_prefix(data, name, i + 1);
    } else {
        assert(data.subrange(0, i) == data);
    }
}

proof fn lemma_manga_index_bound(data: Seq<MangaMetadata>, name: Seq<char>)
    ensures
        manga_index(data, name) matches Some(i) ==> 0 <= i < data.len() && data[i].name@ == name,
    decreases data.len(),
{
    if data.len() > 0 {
        lemma_manga_index_bound(data.drop_last(), name);
    }
}

/// Where the manga named `name` is in the database.
pub fn find_manga(data: &Vec<MangaMetadata>, name: &str) -> (r: Option<usize>)
    ensures
        match manga_index(data@, name@) {
            Some(i) => r matches Some(k) && k == i,
            None => r is None,
        },
{
    let mut i: usize = 0;
    while i < data.len()
        invariant
            i <= data@.len(),
            manga_index(data@.subrange(0, i as int), name@) is None,
        decreases data@.len() - i,
    {
        assert(data@.subrange(0, i + 1).drop_last() == data@.subrange(0, i as int));
        if str_eq(data[i].name.as_str(), name) {
            proof {
                lemma_manga_index_prefix(data@, name@, i + 1);
            }
            return Some(i);
        }
        i = i + 1;
    }
    assert(data@.subrange(0, data@.len() as int) == data@);
    None
}

/// Records a finished download: a manga new to the database is appended whole; a known
/// one (the first with the same name) gains the downloaded chapters it lacks, sorted by
/// number.
pub fn record_download(data: &mut Vec<MangaMetadata>, manga: MangaMetadata)
    ensures
        match manga_index(old(data)@, manga.name@) {
            None => final(data)@ == old(data)@.push(manga),
            Some(i) => {
                &&& final(data)@.len() == old(data)@.len()
                &&& forall|k: int| 0 <= k < old(data)@.len() && k != i ==> final(data)@[k] == old(data)@[k]
                &&& chapters_view(final(data)@[i].chapters@) == chapters_view(old(data)@[i].chapters@)
                    + sort_by_number(new_chapters(old(data)@[i].chapters@, manga.chapters@))
                &&& final(data)@[i] == (MangaMetadata { chapters: final(data)@[i].chapters, ..old(data)@[i] })
            },
        },
{
    match find_manga(data, manga.name.as_str()) {
        None => {
            data.push(manga);
        },
        Some(i) => {
            proof {
                lemma_manga_index_bound(data@, manga.name@);
            }
            let ghost before = data@;
            let mut entry = data.remove(i);
            add_new_chapters(&mut entry.chapters, &manga.chapters);
            data.insert(i, entry);
            assert forall|k: int| 0 <= k < before.len() && k != i implies data@[k] == before[k] by {
                if k < i {
                } else {
                }
            }
        },
    }
}

/// The records of `current` that do not occur in `remove`, in order.
pub open spec fn without(
    current: Seq<(Seq<char>, Seq<char>, Seq<char>)>,
    remove: Seq<(Seq<char>, Seq<char>, Seq<char>)>,
) -> Seq<(Seq<char>, Seq<char>, Seq<char>)>
    decreases current.len(),
{
    if current.len() == 0 {
        current
    } else {
        let prev = without(current.drop_last(), remove);
        if remove.contains(current.last()) {
            prev
        } else {
            prev.push(current.last())
        }
    }
}

/// `current` with the records of `remove` taken out and then every record of `found` that
/// it does not yet hold appended; this is how a check refreshes a manga's chapter list.
pub open spec fn refreshed(
    current: Seq<(Seq<char>, Seq<char>, Seq<char>)>,
    remove: Seq<(Seq<char>, Seq<char>, Seq<char>)>,
    found: Seq<(Seq<char>, Seq<char>, Seq<char>)>,
) -> Seq<(Seq<char>, Seq<char>, Seq<char>)>
    decreases found.len(),
{
    if found.len() == 0 {
        without(current, remove)
    } else {
        let prev = refreshed(current, remove, found.drop_last());
        if prev.contains(found.last()) {
            prev
        } else {
            prev.push(found.last())
        }
    }
}

fn same_chapter(a: &ChapterMetadata, b: &ChapterMetadata) -> (r: bool)
    ensures
        r == (chapter_view(*a) == chapter_view(*b)),
{
    str_eq(a.number.as_str(), b.number.as_str()) && str_eq(a.updated_at.as_str(), b.updated_at.as_str())
        && str_eq(a.id.as_str(), b.id.as_str())
}

fn holds_chapter(cs: &Vec<ChapterMetadata>, c: &ChapterMetadata) -> (r: bool)
    ensures
        r == chapters_view(cs@).contains(chapter_view(*c)),
{
    let mut i: usize = 0;
    while i < cs.len()
        invariant
            i <= cs@.len(),
            forall|k: int| 0 <= k < i ==> chapter_view(#[trigger] cs@[k]) != chapter_view(*c),
        decreases cs@.len() - i,
    {
        if same_chapter(&cs[i], c) {
            assert(chapters_view(cs@)[i as int] == chapter_view(*c));
            return true;
        }
        i = i + 1;
    }
    assert forall|k: int| 0 <= k < chapters_view(cs@).len() implies chapters_view(cs@)[k] != chapter_view(
        *c,
    ) by {
        assert(chapters_view(cs@)[k] == chapter_view(cs@[k]));
    }
    false
}

/// The chapter list a check leaves for a manga: the stored records minus those marked for
/// removal, followed by the records the check found that are not already there.
pub fn refresh_chapters(
    current: &Vec<ChapterMetadata>,
    remove: &Vec<ChapterMetadata>,
    found: &Vec<ChapterMetadata>,
) -> (r: Vec<ChapterMetadata>)
    ensures
        chapters_view(r@) == refreshed(chapters_view(current@), chapters_view(remove@), chapters_view(found@)),
{
    let mut r: Vec<ChapterMetadata> = Vec::new();
    let mut i: usize = 0;
    while i < current.len()
        invariant
            i <= current@.len(),
            chapters_view(r@) == without(chapters_view(current@.subrange(0, i as int)), chapters_view(remove@)),
        decreases current@.len() - i,
    {
        let ghost pre = current@.subrange(0, i + 1);
        assert(chapters_view(pre).drop_last() == chapters_view(current@.subrange(0, i as int)));
        assert(chapters_view(pre).last() == chapter_view(current@[i as int]));
        if !holds_chapter(remove, &current[i]) {
            proof {
                lemma_view_push(r@, current@[i as int]);
            }
            r.push(clone_chapter(&current[i]));
        }
        i = i + 1;
    }
    assert(current@.subrange(0, current@.len() as int) == current@);
    let mut j: usize = 0;
    while j < found.len()
        invariant
            j <= found@.len(),
            chapters_view(r@) == refreshed(
                chapters_view(current@),
                chapters_view(remove@),
                chapters_view(found@.subrange(0, j as int)),
            ),
        decreases found@.len() - j,
    {
        let ghost pre = found@.subrange(0, j + 1);
        assert(chapters_view(pre).drop_last() == chapters_view(found@.subrange(0, j as int)));
        assert(chapters_view(pre).last() == chapter_view(found@[j as int]));
        if !holds_chapter(&r, &found[j]) {
            proof {
                lemma_view_push(r@, found@[j as int]);
            }
            r.push(clone_chapter(&found[j]));
        }
        j = j + 1;
    }
    assert(found@.subrange(0, found@.len() as int) == found@);
    r
}

/// Brings a database entry up to date after its check: the chapter list becomes
/// [`refreshed`]; with `update`, the cover flag becomes whether a cover is now there
/// (`cover_found`, else the outcome of the download attempt `cover_fetched`). Returns
/// whether the entry stays: one left with no chapters and no cover is dropped.
pub fn apply_check(
    item: &mut MangaMetadata,
    remove: &Vec<ChapterMetadata>,
    found: &Vec<ChapterMetadata>,
    cover_found: bool,
    update: bool,
    cover_fetched: bool,
) -> (keep: bool)
    ensures
        chapters_view(final(item).chapters@) == refreshed(
            chapters_view(old(item).chapters@),
            chapters_view(remove@),
            chapters_view(found@),
        ),
        final(item).cover == (if update { cover_found || cover_fetched } else { old(item).cover }),
        *final(item) == (MangaMetadata { chapters: final(item).chapters, cover: final(item).cover, ..*old(item) }),
        keep == !(final(item).chapters@.len() == 0 && !cover_found),
{
    if update {
        item.cover = if !cover_found { cover_fetched } else { true };
    }
    let chapters = refresh_chapters(&item.chapters, remove, found);
    item.chapters = chapters;
    !(item.chapters.len() == 0 && !cover_found)
}

/// Lines that `--check` prints for one manga.
pub open spec fn check_report_spec(
    name: Seq<char>,
    id: Seq<char>,
    to_download: Seq<String>,
    outdated: Seq<String>,
    fixed_dates: Seq<String>,
    cover: bool,
) -> Seq<Seq<char>> {
    let head = seq!["Checked "@ + name + " ("@ + id + ")"@];
    let pending = to_download.len() > 0 || outdated.len() > 0;
    let body = if pending {
        seq!["Chapters available"@] + to_download.map_values(|c: String| " "@ + c@) + outdated.map_values(
            |c: String| " "@ + c@ + " (OUTDATED CHAPTER)"@,
        )
    } else if fixed_dates.len() > 0 {
        seq!["Chapters ERROR"@] + fixed_dates.map_values(|d: String| " "@ + d@ + " (CORRUPT DATE) (FIXED)"@)
    } else {
        seq![]
    };
    let tail = if !cover {
        seq!["Cover is not downloaded"@]
    } else if !pending {
        seq!["Up to-date"@]
    } else {
        seq![]
    };
    head + body + tail
}

fn push_framed(lines: &mut Vec<String>, items: &Vec<String>, suffix: &str)
    ensures
        final(lines)@.map_values(|s: String| s@) == old(lines)@.map_values(|s: String| s@) + items@.map_values(
            |c: String| " "@ + c@ + suffix@,
        ),
{
    let ghost start = lines@.map_values(|s: String| s@);
    let mut i: usize = 0;
    while i < items.len()
        invariant
            i <= items@.len(),
            lines@.map_values(|s: String| s@) == start + items@.subrange(0, i as int).map_values(
                |c: String| " "@ + c@ + suffix@,
            ),
        decreases items@.len() - i,
    {
        let mut line = String::from_str(" ");
        line.append(items[i].as_str());
        line.append(suffix);
        let ghost before = lines@;
        lines.push(line);
        assert(lines@.map_values(|s: String| s@) == before.map_values(|s: String| s@).push(line@));
        assert(items@.subrange(0, i + 1).map_values(|c: String| " "@ + c@ + suffix@) == items@.subrange(
            0,
            i as int,
        ).map_values(|c: String| " "@ + c@ + suffix@).push(" "@ + items@[i as int]@ + suffix@));
        i = i + 1;
    }
    assert(items@.subrange(0, items@.len() as int) == items@);
}

/// The lines `--check` prints for one manga: its name and id, the chapters still to
/// download (plain, then outdated ones), or else the dates that were repaired, and the
/// state of its cover.
pub fn check_report(
    name: &str,
    id: &str,
    to_download: &Vec<String>,
    outdated: &Vec<String>,
    fixed_dates: &Vec<String>,
    cover: bool,
) -> (lines: Vec<String>)
    ensures
        lines@.map_values(|s: String| s@) == check_report_spec(
            name@,
            id@,
            to_download@,
            outdated@,
            fixed_dates@,
            cover,
        ),
{
    proof {
        reveal_strlit("Checked ");
        reveal_strlit(" (");
        reveal_strlit(")");
        reveal_strlit("Chapters available");
        reveal_strlit("Chapters ERROR");
        reveal_strlit("Cover is not downloaded");
        reveal_strlit("Up to-date");
        reveal_strlit("");
    }
    let ghost spec = check_report_spec(name@, id@, to_download@, outdated@, fixed_dates@, cover);
    let mut lines: Vec<String> = Vec::new();
    let mut head = String::from_str("Checked ");
    head.append(name);
    head.append(" (");
    head.append(id);
    head.append(")");
    lines.push(head);
    let ghost head_lines = lines@.map_values(|s: String| s@);
    assert(head_lines == seq!["Checked "@ + name@ + " ("@ + id@ + ")"@]);
    let pending = to_download.len() > 0 || outdated.len() > 0;
    if pending {
        let ghost b0 = lines@;
        lines.push(String::from_str("Chapters available"));
        assert(lines@.map_values(|s: String| s@) =~= b0.map_values(|s: String| s@).push("Chapters available"@));
        push_framed(&mut lines, to_download, "");
        assert(to_download@.map_values(|c: String| " "@ + c@ + ""@) =~= to_download@.map_values(
            |c: String| " "@ + c@,
        )) by {
            assert forall|k: int| 0 <= k < to_download@.len() implies " "@ + to_download@[k]@ + ""@
                =~= " "@ + to_download@[k]@ by {}
        }
        push_framed(&mut lines, outdated, " (OUTDATED CHAPTER)");
    } else if fixed_dates.len() > 0 {
        let ghost b0 = lines@;
        lines.push(String::from_str("Chapters ERROR"));
        assert(lines@.map_values(|s: String| s@) =~= b0.map_values(|s: String| s@).push("Chapters ERROR"@));
        push_framed(&mut lines, fixed_dates, " (CORRUPT DATE) (FIXED)");
    }
    let ghost b1 = lines@;
    if !cover {
        lines.push(String::from_str("Cover is not downloaded"));
        assert(lines@.map_values(|s: String| s@) =~= b1.map_values(|s: String| s@).push("Cover is not downloaded"@));
    } else if !pending {
        lines.push(String::from_str("Up to-date"));
        assert(lines@.map_values(|s: String| s@) =~= b1.map_values(|s: String| s@).push("Up to-date"@));
    }
    assert(lines@.map_values(|s: String| s@) =~= spec);
    lines
}

/// The entries of `data` whose positions are not listed in `positions`, in order.
pub open spec fn drop_positions(data: Seq<MangaMetadata>, positions: Seq<usize>) -> Seq<MangaMetadata>
    decreases data.len(),
{
    if data.len() == 0 {
        data
    } else {
        let prev = drop_positions(data.drop_last(), positions);
        if positions.contains((data.len() - 1) as usize) {
            prev
        } else {
            prev.push(data.last())
        }
    }
}

fn listed(positions: &Vec<usize>, k: usize) -> (r: bool)
    ensures
        r == positions@.contains(k),
{
    let mut i: usize = 0;
    while i < positions.len()
        invariant
            i <= positions@.len(),
            forall|j: int| 0 <= j < i ==> positions@[j] != k,
        decreases positions@.len() - i,
    {
        if positions[i] == k {
            return true;
        }
        i = i + 1;
    }
    false
}

/// Takes the entries at `positions` out of the database (those a check found gone).
pub fn remove_entries(data: &mut Vec<MangaMetadata>, positions: &Vec<usize>)
    ensures
        final(data)@ == drop_positions(old(data)@, positions@),
{
    let ghost whole = data@;
    let n = data.len();
    let mut rest: Vec<MangaMetadata> = Vec::new();
    std::mem::swap(data, &mut rest);
    let mut k: usize = 0;
    while rest.len() > 0
        invariant
            k + rest@.len() == whole.len(),
            whole.len() == n,
            rest@ == whole.subrange(k as int, whole.len() as int),
            data@ == drop_positions(whole.subrange(0, k as int), positions@),
        decreases rest@.len(),
    {
        let item = rest.remove(0);
        let ghost pre = whole.subrange(0, k + 1);
        assert(pre.drop_last() == whole.subrange(0, k as int));
        assert(pre.last() == item);
        if !listed(positions, k) {
            data.push(item);
        }
        k = k + 1;
        assert(rest@ == whole.subrange(k as int, whole.len() as int));
    }
    assert(whole.subrange(0, k as int) == whole);
}

} // verus!
