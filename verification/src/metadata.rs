//! Records of chapters, tags, logs and API responses.

use vstd::prelude::*;
use vstd::string::*;
use std::collections::BTreeMap;
use crate::query::{split_chars, split_on};
use crate::text::{chars_eq, dec, dec_string, parse_i32_chars, parse_signed, str_chars};

verus! {

/// A downloaded chapter: when MangaDex last updated it, its number and its id.
#[derive(Debug, Clone)]
pub struct ChapterMetadata {
    pub updated_at: String,
    pub number: String,
    pub id: String,
}

/// The numbers that `str::parse::<i32>` accepts among the `.`-separated pieces, in order.
pub open spec fn parsed_pieces(pieces: Seq<Seq<char>>) -> Seq<int>
    decreases pieces.len(),
{
    if pieces.len() == 0 {
        seq![]
    } else {
        let prev = parsed_pieces(pieces.drop_last());
        match parse_signed(pieces.last(), 0x8000_0000) {
            Some(v) => prev.push(v),
            None => prev,
        }
    }
}

/// Index of the first chapter with id `id`.
pub open spec fn index_of_id(chapters: Seq<ChapterMetadata>, id: Seq<char>) -> Option<int>
    decreases chapters.len(),
{
    if chapters.len() == 0 {
        None
    } else {
        match index_of_id(chapters.drop_last(), id) {
            Some(i) => Some(i),
            None => if chapters.last().id@ == id { Some(chapters.len() - 1) } else { None },
        }
    }
}

proof fn lemma_index_of_id_prefix(chapters: Seq<ChapterMetadata>, id: Seq<char>, i: int)
    requires
        0 <= i <= chapters.len(),
        index_of_id(chapters.subrange(0, i), id) is Some,
    ensures
        index_of_id(chapters, id) == index_of_id(chapters.subrange(0, i), id),
    decreases chapters.len() - i,
{
    if i < chapters.len() {
        assert(chapters.subrange(0, i + 1).drop_last() == chapters.subrange(0, i));
        lemma_index_of_id_prefix(chapters, id, i + 1);
    } else {
        assert(chapters.subrange(0, i) == chapters);
    }
}

/// Facts about [`index_of_id`]: the index is in range, holds the id, and no earlier
/// chapter has it.
pub proof fn lemma_index_of_id(chapters: Seq<ChapterMetadata>, id: Seq<char>)
    ensures
        match index_of_id(chapters, id) {
            Some(i) => 0 <= i < chapters.len() && chapters[i].id@ == id && forall|j: int|
                0 <= j < i ==> chapters[j].id@ != id,
            None => forall|j: int| 0 <= j < chapters.len() ==> chapters[j].id@ != id,
        },
    decreases chapters.len(),
{
    if chapters.len() > 0 {
        lemma_index_of_id(chapters.drop_last(), id);
        match index_of_id(chapters.drop_last(), id) {
            Some(i) => {
                assert(chapters[i] == chapters.drop_last()[i]);
                assert forall|j: int| 0 <= j < i implies chapters[j].id@ != id by {
                    assert(chapters[j] == chapters.drop_last()[j]);
                }
            },
            None => {
                assert forall|j: int| 0 <= j < chapters.len() - 1 implies chapters[j].id@ != id by {
                    assert(chapters[j] == chapters.drop_last()[j]);
                }
            },
        }
    }
}

impl ChapterMetadata {
    /// The record with the given number, update time and id.
    pub open spec fn new_spec(number: String, updated_at: String, id: String) -> ChapterMetadata {
        ChapterMetadata { updated_at, number, id }
    }

    /// A chapter record.
    pub fn new(number: &str, updated_at: &str, id: &str) -> (r: ChapterMetadata)
        ensures
            r.number@ == number@,
            r.updated_at@ == updated_at@,
            r.id@ == id@,
    {
        ChapterMetadata {
            updated_at: String::from_str(updated_at),
            number: String::from_str(number),
            id: String::from_str(id),
        }
    }

    /// The chapter number's `.`-separated pieces that parse as `i32`, e.g. `1.2.3` gives
    /// `[1, 2, 3]`; pieces that do not parse are skipped.
    pub fn parse_number(&self) -> (r: Vec<i32>)
        ensures
            r@.len() == parsed_pieces(split_on(self.number@, '.')).len(),
            forall|i: int|
                0 <= i < r@.len() ==> r@[i] as int == #[trigger] parsed_pieces(
                    split_on(self.number@, '.'),
                )[i],
    {
        let chars = str_chars(self.number.as_str());
        let pieces = split_chars(chars.as_slice(), '.');
        let ghost sp = split_on(self.number@, '.');
        let mut r: Vec<i32> = Vec::new();
        let mut i: usize = 0;
        while i < pieces.len()
            invariant
                i <= pieces@.len(),
                pieces@.len() == sp.len(),
                forall|k: int| 0 <= k < pieces@.len() ==> #[trigger] pieces@[k]@ == sp[k],
                r@.len() == parsed_pieces(sp.subrange(0, i as int)).len(),
                forall|k: int|
                    0 <= k < r@.len() ==> r@[k] as int == #[trigger] parsed_pieces(
                        sp.subrange(0, i as int),
                    )[k],
            decreases pieces@.len() - i,
        {
            assert(sp.subrange(0, i + 1).drop_last() == sp.subrange(0, i as int));
            assert(sp.subrange(0, i + 1).last() == sp[i as int]);
            match parse_i32_chars(pieces[i].as_slice()) {
                Some(v) => {
                    r.push(v);
                },
                None => {},
            }
            i = i + 1;
        }
        assert(sp.subrange(0, pieces@.len() as int) == sp);
        r
    }

    /// Position of the chapter with this chapter's id in `chapters`.
    fn position(&self, chapters: &[ChapterMetadata]) -> (r: Option<usize>)
        ensures
            match index_of_id(chapters@, self.id@) {
                Some(i) => r matches Some(k) && k == i,
                None => r is None,
            },
    {
        let id = str_chars(self.id.as_str());
        let mut i: usize = 0;
        while i < chapters.len()
            invariant
                i <= chapters@.len(),
                id@ == self.id@,
                index_of_id(chapters@.subrange(0, i as int), self.id@) is None,
            decreases chapters@.len() - i,
        {
            let other = str_chars(chapters[i].id.as_str());
            assert(chapters@.subrange(0, i + 1).drop_last() == chapters@.subrange(0, i as int));
            if chars_eq(other.as_slice(), id.as_slice()) {
                proof {
                    lemma_index_of_id_prefix(chapters@, self.id@, i + 1);
                }
                return Some(i);
            }
            i = i + 1;
        }
        assert(chapters@.subrange(0, chapters@.len() as int) == chapters@);
        None
    }

    /// The chapter after the first chapter with this chapter's id, if there is one.
    pub fn get_next_chapter<'a>(&self, chapters: &'a [ChapterMetadata]) -> (r: Option<
        &'a ChapterMetadata,
    >)
        ensures
            match index_of_id(chapters@, self.id@) {
                Some(i) => if i + 1 < chapters@.len() {
                    r == Some(&chapters@[i + 1])
                } else {
                    r is None
                },
                None => r is None,
            },
    {
        proof {
            lemma_index_of_id(chapters@, self.id@);
        }
        let i = match self.position(chapters) {
            Some(i) => i,
            None => return None,
        };
        let n = chapters.len();
        if i + 1 < n {
            Some(&chapters[i + 1])
        } else {
            None
        }
    }

    /// The chapter before the first chapter with this chapter's id, if there is one.
    pub fn get_previous_chapter<'a>(&self, chapters: &'a [ChapterMetadata]) -> (r: Option<
        &'a ChapterMetadata,
    >)
        ensures
            match index_of_id(chapters@, self.id@) {
                Some(i) => if i > 0 {
                    r == Some(&chapters@[i - 1])
                } else {
                    r is None
                },
                None => r is None,
            },
    {
        proof {
            lemma_index_of_id(chapters@, self.id@);
        }
        let i = match self.position(chapters) {
            Some(i) => i,
            None => return None,
        };
        if i > 0 {
            let j = i - 1;
            let prev = &chapters[j];
            assert(prev == &chapters@[j as int]);
            Some(prev)
        } else {
            None
        }
    }
}

/// A genre or theme tag.
#[derive(Debug, Clone)]
pub struct TagMetadata {
    pub name: String,
    pub id: String,
}

impl TagMetadata {
    /// A tag record.
    pub fn new(name: &str, id: &str) -> (r: TagMetadata)
        ensures
            r.name@ == name@,
            r.id@ == id@,
    {
        TagMetadata { name: String::from_str(name), id: String::from_str(id) }
    }
}

/// One logging session: its id, its messages by chapter, working directory, name, times
/// and kind.
#[derive(Debug, Clone)]
pub struct LogsMetadata {
    pub id: String,
    pub logs: BTreeMap<String, Vec<String>>,
    pub mwd: String,
    pub name: String,
    pub time_end: String,
    pub time_start: String,
    pub kind: String,
}

impl LogsMetadata {
    /// A logging-session record.
    pub fn new(
        id: &str,
        logs: BTreeMap<String, Vec<String>>,
        mwd: &str,
        name: &str,
        time_end: &str,
        time_start: &str,
        kind: &str,
    ) -> (r: LogsMetadata)
        ensures
            r.id@ == id@,
            r.logs == logs,
            r.mwd@ == mwd@,
            r.name@ == name@,
            r.time_end@ == time_end@,
            r.time_start@ == time_start@,
            r.kind@ == kind@,
    {
        LogsMetadata {
            id: String::from_str(id),
            logs,
            mwd: String::from_str(mwd),
            name: String::from_str(name),
            time_end: String::from_str(time_end),
            time_start: String::from_str(time_start),
            kind: String::from_str(kind),
        }
    }
}

/// Attributes of a chapter in a feed response.
#[derive(Debug, Clone)]
pub struct ChapterAttrResponse {
    pub volume: Option<String>,
    pub chapter: Option<String>,
    pub title: Option<String>,
    pub translated_language: Option<String>,
    pub external_url: Option<String>,
    pub publish_at: String,
    pub readable_at: String,
    pub created_at: String,
    pub updated_at: String,
    pub pages: u64,
    pub version: u64,
}

/// A relationship of a chapter (its scanlation group, its manga, ...).
#[derive(Debug, Clone)]
pub struct ChapterRelResponse {
    pub id: String,
    pub kind: String,
}

/// A chapter in a feed response.
#[derive(Debug, Clone)]
pub struct ChapterResponse {
    pub id: String,
    pub kind: String,
    pub attributes: ChapterAttrResponse,
    pub relationships: Vec<ChapterRelResponse>,
}

/// The text of an optional string, empty when absent.
pub open spec fn or_empty(s: Option<String>) -> Seq<char> {
    match s {
        Some(t) => t@,
        None => Seq::empty(),
    }
}

/// A copy of an optional string.
pub fn clone_opt_string(s: &Option<String>) -> (r: Option<String>)
    ensures
        r == *s,
{
    match s {
        Some(t) => Some(t.clone()),
        None => None,
    }
}

/// The text of an optional string, empty when absent.
pub fn string_or_empty(s: &Option<String>) -> (r: String)
    ensures
        r@ == or_empty(*s),
{
    match s {
        Some(t) => t.clone(),
        None => String::new(),
    }
}

/// A copy of a chapter's attributes.
pub fn clone_attributes(a: &ChapterAttrResponse) -> (r: ChapterAttrResponse)
    ensures
        r == *a,
{
    ChapterAttrResponse {
        volume: clone_opt_string(&a.volume),
        chapter: clone_opt_string(&a.chapter),
        title: clone_opt_string(&a.title),
        translated_language: clone_opt_string(&a.translated_language),
        external_url: clone_opt_string(&a.external_url),
        publish_at: a.publish_at.clone(),
        readable_at: a.readable_at.clone(),
        created_at: a.created_at.clone(),
        updated_at: a.updated_at.clone(),
        pages: a.pages,
        version: a.version,
    }
}

/// The chapter's attributes, language, page count, number and title (missing texts
/// empty).
pub fn get_metadata(array_item: &ChapterResponse) -> (r: (
    ChapterAttrResponse,
    String,
    u64,
    String,
    String,
))
    ensures
        r.0 == array_item.attributes,
        r.1@ == or_empty(array_item.attributes.translated_language),
        r.2 == array_item.attributes.pages,
        r.3@ == or_empty(array_item.attributes.chapter),
        r.4@ == or_empty(array_item.attributes.title),
{
    let chapter_attr = clone_attributes(&array_item.attributes);
    let lang = string_or_empty(&chapter_attr.translated_language);
    let pages = chapter_attr.pages;
    let chapter_num = string_or_empty(&chapter_attr.chapter);
    let title = string_or_empty(&chapter_attr.title);
    (chapter_attr, lang, pages, chapter_num, title)
}

/// Id of the first relationship of type `scanlation_group`.
pub open spec fn scanlation_group_spec(rels: Seq<ChapterRelResponse>) -> Option<Seq<char>>
    decreases rels.len(),
{
    if rels.len() == 0 {
        None
    } else if rels[0].kind@ == "scanlation_group"@ {
        Some(rels[0].id@)
    } else {
        scanlation_group_spec(rels.drop_first())
    }
}

/// The id of the chapter's scanlation group.
pub fn get_scanlation_group(json: &Vec<ChapterRelResponse>) -> (r: Option<String>)
    ensures
        match scanlation_group_spec(json@) {
            Some(id) => r matches Some(s) && s@ == id,
            None => r is None,
        },
{
    let key = str_chars("scanlation_group");
    let mut i: usize = 0;
    assert(json@.subrange(0, json@.len() as int) == json@);
    while i < json.len()
        invariant
            i <= json@.len(),
            key@ == "scanlation_group"@,
            scanlation_group_spec(json@) == scanlation_group_spec(
                json@.subrange(i as int, json@.len() as int),
            ),
        decreases json@.len() - i,
    {
        let ghost rest = json@.subrange(i as int, json@.len() as int);
        assert(rest.drop_first() == json@.subrange(i + 1, json@.len() as int));
        let t = str_chars(json[i].kind.as_str());
        if chars_eq(t.as_slice(), key.as_slice()) {
            return Some(json[i].id.clone());
        }
        i = i + 1;
    }
    None
}

/// A scanlation group: name and website.
#[derive(Debug, Clone)]
pub struct ScanlationMetadata {
    pub name: String,
    pub website: String,
}

/// What a chapter archive says of itself (its `_metadata` entry).
#[derive(Debug, Clone)]
pub struct ChapterMetadataIn {
    pub name: String,
    pub id: String,
    pub manga_id: String,
    /// Whether its images are the data-saver ones.
    pub saver: bool,
    pub title: String,
    pub pages: String,
    pub chapter: String,
    pub volume: String,
    pub scanlation: ScanlationMetadata,
}

/// How many ratings of each score, one to ten, a manga has.
#[derive(Debug, Clone, Copy)]
pub struct RatingDistribution {
    pub one: u64,
    pub two: u64,
    pub three: u64,
    pub four: u64,
    pub five: u64,
    pub six: u64,
    pub seven: u64,
    pub eight: u64,
    pub nine: u64,
    pub ten: u64,
}

/// Number of ratings with score `i`, for `i` from one to ten.
pub open spec fn rating_count(d: RatingDistribution, i: nat) -> u64 {
    if i == 1 { d.one } else if i == 2 { d.two } else if i == 3 { d.three } else if i == 4 {
        d.four
    } else if i == 5 { d.five } else if i == 6 { d.six } else if i == 7 { d.seven } else if i
        == 8 { d.eight } else if i == 9 { d.nine } else { d.ten }
}

/// The statistics line for score `i`: `<i>: <count>` and a blank line, or empty when `i`
/// is not a score.
pub fn get_dist(distribution: &RatingDistribution, i: usize) -> (r: String)
    ensures
        1 <= i <= 10 ==> r@ == dec(i as nat) + ": "@ + dec(rating_count(*distribution, i as nat) as nat)
            + "\n\n"@,
        !(1 <= i <= 10) ==> r@.len() == 0,
{
    let value = if i == 1 {
        distribution.one
    } else if i == 2 {
        distribution.two
    } else if i == 3 {
        distribution.three
    } else if i == 4 {
        distribution.four
    } else if i == 5 {
        distribution.five
    } else if i == 6 {
        distribution.six
    } else if i == 7 {
        distribution.seven
    } else if i == 8 {
        distribution.eight
    } else if i == 9 {
        distribution.nine
    } else if i == 10 {
        distribution.ten
    } else {
        return String::new();
    };
    let mut s = dec_string(i as u64);
    s.append(": ");
    s.append(dec_string(value).as_str());
    s.append("\n\n");
    s
}

} // verus!
