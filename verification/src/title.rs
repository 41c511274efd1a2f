//! Choosing the display name of a manga from its title data.

use vstd::prelude::*;
use vstd::string::*;
use crate::text::{chars_eq, chars_to_string, str_chars, strip_forbidden, strip_forbidden_chars, trim, trim_chars};

verus! {

/// One key of a JSON object of titles, keyed by language code.
pub struct TitleEntry {
    /// The language code (the object key).
    pub lang: String,
    /// The value when it is a JSON string.
    pub text: Option<String>,
    /// The value rendered as JSON text (a string value keeps its quotes and escapes).
    pub json: String,
}

/// The parts of a manga's `attributes` object that name it.
pub struct TitleData {
    /// The `title` object; `None` when absent or not an object.
    pub title: Option<Vec<TitleEntry>>,
    /// The `altTitles` array; `None` when absent or not an array. An element is
    /// `None` when it is not an object.
    pub alt_titles: Option<Vec<Option<Vec<TitleEntry>>>>,
}

/// Name used when no title can be found.
pub open spec fn unrecognized_title() -> Seq<char> {
    "Unrecognized title"@
}

/// First entry of `es` with key `key`.
pub open spec fn lookup(es: Seq<TitleEntry>, key: Seq<char>) -> Option<TitleEntry>
    decreases es.len(),
{
    if es.len() == 0 {
        None
    } else {
        match lookup(es.drop_last(), key) {
            Some(e) => Some(e),
            None => if es.last().lang@ == key { Some(es.last()) } else { None },
        }
    }
}

/// Last entry of `es` with key `key`.
pub open spec fn lookup_last(es: Seq<TitleEntry>, key: Seq<char>) -> Option<TitleEntry>
    decreases es.len(),
{
    if es.len() == 0 {
        None
    } else if es.last().lang@ == key {
        Some(es.last())
    } else {
        lookup_last(es.drop_last(), key)
    }
}

/// The string value stored under `key` in an optional object.
pub open spec fn lookup_text(obj: Option<Vec<TitleEntry>>, key: Seq<char>) -> Option<Seq<char>> {
    match obj {
        Some(es) => match lookup(es@, key) {
            Some(e) => match e.text {
                Some(t) => Some(t@),
                None => None,
            },
            None => None,
        },
        None => None,
    }
}

/// The entry for `key` once all alternative-title objects are merged, later objects
/// overriding earlier ones.
pub open spec fn merged_lookup(alts: Seq<Option<Vec<TitleEntry>>>, key: Seq<char>) -> Option<
    TitleEntry,
>
    decreases alts.len(),
{
    if alts.len() == 0 {
        None
    } else {
        match alts.last() {
            Some(obj) => match lookup_last(obj@, key) {
                Some(e) => Some(e),
                None => merged_lookup(alts.drop_last(), key),
            },
            None => merged_lookup(alts.drop_last(), key),
        }
    }
}

/// The English title in the first alternative-title object, if that object has the key
/// `en`; a non-string value counts as the empty title.
pub open spec fn first_alt_english(alts: Seq<Option<Vec<TitleEntry>>>) -> Option<Seq<char>> {
    if alts.len() > 0 {
        match alts[0] {
            Some(obj) => match lookup(obj@, "en"@) {
                Some(e) => match e.text {
                    Some(t) => Some(t@),
                    None => Some(Seq::empty()),
                },
                None => None,
            },
            None => None,
        }
    } else {
        None
    }
}

/// The romanized Japanese main title, else the English main title, else
/// "Unrecognized title".
pub open spec fn main_title_fallback(title: Option<Vec<TitleEntry>>) -> Seq<char> {
    match lookup_text(title, "ja-ro"@) {
        Some(t) => t,
        None => match lookup_text(title, "en"@) {
            Some(t) => t,
            None => unrecognized_title(),
        },
    }
}

/// The title chosen before clean-up: the title in `lang`, else the first alternative
/// English title, else the romanized Japanese or English main title, else the JSON text of
/// the merged alternative English or romanized Japanese title.
pub open spec fn raw_manga_name(d: TitleData, lang: Seq<char>) -> Seq<char> {
    match lookup_text(d.title, lang) {
        Some(name) => name,
        None => match d.alt_titles {
            None => main_title_fallback(d.title),
            Some(alts) => {
                let r1 = match first_alt_english(alts@) {
                    Some(t) => t,
                    None => unrecognized_title(),
                };
                let r2 = if r1 == unrecognized_title() {
                    main_title_fallback(d.title)
                } else {
                    r1
                };
                if r2 == unrecognized_title() {
                    match merged_lookup(alts@, "en"@) {
                        Some(e) => e.json@,
                        None => match merged_lookup(alts@, "ja-ro"@) {
                            Some(e) => e.json@,
                            None => unrecognized_title(),
                        },
                    }
                } else {
                    r2
                }
            },
        },
    }
}

/// Whether a character is dropped from a title (`"` and `?`).
pub open spec fn is_title_noise(c: char) -> bool {
    c == '"' || c == '?'
}

/// The sequence without `"` and `?`.
pub open spec fn strip_noise(s: Seq<char>) -> Seq<char>
    decreases s.len(),
{
    if s.len() == 0 {
        s
    } else if is_title_noise(s.last()) {
        strip_noise(s.drop_last())
    } else {
        strip_noise(s.drop_last()).push(s.last())
    }
}

/// Longest title, in characters, kept whole.
pub open spec fn max_name_chars() -> nat {
    70
}

/// The title cut to its first `max_name_chars()` characters and marked with `__` when it
/// is longer.
pub open spec fn shorten(s: Seq<char>) -> Seq<char> {
    if s.len() > max_name_chars() {
        s.subrange(0, max_name_chars() as int) + "__"@
    } else {
        s
    }
}

/// The title after removing quotes and question marks and trimming white space.
pub open spec fn cleaned_manga_name(d: TitleData, lang: Seq<char>) -> Seq<char> {
    trim(strip_noise(raw_manga_name(d, lang)))
}

/// The manga name that `get_manga_name` gives.
pub open spec fn manga_name(d: TitleData, lang: Seq<char>) -> Seq<char> {
    strip_forbidden(shorten(cleaned_manga_name(d, lang)))
}

proof fn lemma_lookup_prefix(es: Seq<TitleEntry>, key: Seq<char>, i: int)
    requires
        0 <= i <= es.len(),
        lookup(es.subrange(0, i), key) is Some,
    ensures
        lookup(es, key) == lookup(es.subrange(0, i), key),
    decreases es.len() - i,
{
    if i < es.len() {
        assert(es.subrange(0, i + 1).drop_last() == es.subrange(0, i));
        lemma_lookup_prefix(es, key, i + 1);
    } else {
        assert(es.subrange(0, i) == es);
    }
}

/// Index of the first entry with key `key`.
fn find_entry(es: &Vec<TitleEntry>, key: &[char]) -> (r: Option<usize>)
    ensures
        match r {
            Some(i) => i < es@.len() && lookup(es@, key@) == Some(es@[i as int]),
            None => lookup(es@, key@) is None,
        },
{
    let mut i: usize = 0;
    while i < es.len()
        invariant
            i <= es@.len(),
            lookup(es@.subrange(0, i as int), key@) is None,
        decreases es@.len() - i,
    {
        let lang = str_chars(es[i].lang.as_str());
        assert(es@.subrange(0, i + 1).drop_last() == es@.subrange(0, i as int));
        if chars_eq(lang.as_slice(), key) {
            proof {
                lemma_lookup_prefix(es@, key@, i + 1);
            }
            return Some(i);
        }
        i = i + 1;
    }
    assert(es@.subrange(0, es@.len() as int) == es@);
    None
}

/// Index of the last entry with key `key`.
fn find_entry_last(es: &Vec<TitleEntry>, key: &[char]) -> (r: Option<usize>)
    ensures
        match r {
            Some(i) => i < es@.len() && lookup_last(es@, key@) == Some(es@[i as int]),
            None => lookup_last(es@, key@) is None,
        },
{
    let mut i: usize = es.len();
    assert(es@.subrange(0, i as int) == es@);
    while i > 0
        invariant
            i <= es@.len(),
            lookup_last(es@, key@) == lookup_last(es@.subrange(0, i as int), key@),
        decreases i,
    {
        let lang = str_chars(es[i - 1].lang.as_str());
        assert(es@.subrange(0, i as int).drop_last() == es@.subrange(0, i - 1));
        if chars_eq(lang.as_slice(), key) {
            return Some(i - 1);
        }
        i = i - 1;
    }
    None
}

/// The string value under `key` in an optional title object.
fn lookup_text_exec(obj: &Option<Vec<TitleEntry>>, key: &[char]) -> (r: Option<Vec<char>>)
    ensures
        match lookup_text(*obj, key@) {
            Some(t) => r matches Some(v) && v@ == t,
            None => r is None,
        },
{
    match obj {
        Some(es) => match find_entry(es, key) {
            Some(i) => match &es[i].text {
                Some(t) => Some(str_chars(t.as_str())),
                None => None,
            },
            None => None,
        },
        None => None,
    }
}

/// JSON text of the merged alternative title under `key`.
fn merged_lookup_exec(alts: &Vec<Option<Vec<TitleEntry>>>, key: &[char]) -> (r: Option<Vec<char>>)
    ensures
        match merged_lookup(alts@, key@) {
            Some(e) => r matches Some(v) && v@ == e.json@,
            None => r is None,
        },
{
    let mut i: usize = alts.len();
    assert(alts@.subrange(0, i as int) == alts@);
    while i > 0
        invariant
            i <= alts@.len(),
            merged_lookup(alts@, key@) == merged_lookup(alts@.subrange(0, i as int), key@),
        decreases i,
    {
        assert(alts@.subrange(0, i as int).drop_last() == alts@.subrange(0, i - 1));
        match &alts[i - 1] {
            Some(obj) => match find_entry_last(obj, key) {
                Some(j) => {
                    return Some(str_chars(obj[j].json.as_str()));
                },
                None => {},
            },
            None => {},
        }
        i = i - 1;
    }
    None
}

/// Whether a character sequence is "Unrecognized title".
fn is_unrecognized(v: &Vec<char>) -> (r: bool)
    ensures
        r == (v@ == unrecognized_title()),
{
    let u = str_chars("Unrecognized title");
    chars_eq(v.as_slice(), u.as_slice())
}

/// The romanized Japanese or English main title, else "Unrecognized title".
fn main_title_fallback_exec(title: &Option<Vec<TitleEntry>>) -> (r: Vec<char>)
    ensures
        r@ == main_title_fallback(*title),
{
    let ja_ro = str_chars("ja-ro");
    let en = str_chars("en");
    match lookup_text_exec(title, ja_ro.as_slice()) {
        Some(t) => t,
        None => match lookup_text_exec(title, en.as_slice()) {
            Some(t) => t,
            None => str_chars("Unrecognized title"),
        },
    }
}

/// The title chosen from the data, before clean-up.
fn raw_manga_name_exec(d: &TitleData, lang: &str) -> (r: Vec<char>)
    ensures
        r@ == raw_manga_name(*d, lang@),
{
    let lang_chars = str_chars(lang);
    if let Some(name) = lookup_text_exec(&d.title, lang_chars.as_slice()) {
        return name;
    }
    match &d.alt_titles {
        None => main_title_fallback_exec(&d.title),
        Some(alts) => {
            let en = str_chars("en");
            let ja_ro = str_chars("ja-ro");
            let mut r1 = str_chars("Unrecognized title");
            if alts.len() > 0 {
                if let Some(obj) = &alts[0] {
                    if let Some(j) = find_entry(obj, en.as_slice()) {
                        r1 = match &obj[j].text {
                            Some(t) => str_chars(t.as_str()),
                            None => Vec::new(),
                        };
                    }
                }
            }
            let mut r2 = r1;
            if is_unrecognized(&r2) {
                r2 = main_title_fallback_exec(&d.title);
            }
            if is_unrecognized(&r2) {
                match merged_lookup_exec(alts, en.as_slice()) {
                    Some(t) => t,
                    None => match merged_lookup_exec(alts, ja_ro.as_slice()) {
                        Some(t) => t,
                        None => str_chars("Unrecognized title"),
                    },
                }
            } else {
                r2
            }
        },
    }
}

/// Removes `"` and `?`.
fn strip_noise_chars(chars: &[char]) -> (out: Vec<char>)
    ensures
        out@ == strip_noise(chars@),
{
    let mut out: Vec<char> = Vec::new();
    let mut i: usize = 0;
    while i < chars.len()
        invariant
            i <= chars@.len(),
            out@ == strip_noise(chars@.subrange(0, i as int)),
        decreases chars@.len() - i,
    {
        let c = chars[i];
        if !(c == '"' || c == '?') {
            out.push(c);
        }
        assert(chars@.subrange(0, i + 1).drop_last() == chars@.subrange(0, i as int));
        i = i + 1;
    }
    assert(chars@.subrange(0, chars@.len() as int) == chars@);
    out
}

/// Cuts a title longer than seventy characters to its first seventy and appends `__`.
fn shorten_chars(s: &Vec<char>) -> (r: Vec<char>)
    ensures
        r@ == shorten(s@),
{
    if s.len() <= 70 {
        return s.clone();
    }
    let mut r: Vec<char> = Vec::new();
    let mut n: usize = 0;
    while n < 70
        invariant
            n <= 70 < s@.len(),
            r@ == s@.subrange(0, n as int),
        decreases 70 - n,
    {
        r.push(s[n]);
        n = n + 1;
        assert(r@ == s@.subrange(0, n as int));
    }
    r.push('_');
    r.push('_');
    assert(r@ == s@.subrange(0, 70) + "__"@) by {
        reveal_strlit("__");
    }
    r
}

/// The manga name: the title in `lang` or the best fallback, without quotes and question
/// marks, trimmed, cut to seventy characters with `__` appended when longer, and stripped
/// of characters that a file name cannot hold.
pub fn get_manga_name(title_data: &TitleData, lang: &str) -> (name: String)
    ensures
        name@ == manga_name(*title_data, lang@),
{
    let raw = raw_manga_name_exec(title_data, lang);
    let stripped = strip_noise_chars(raw.as_slice());
    let trimmed = trim_chars(stripped.as_slice());
    let short = shorten_chars(&trimmed);
    let out = strip_forbidden_chars(short.as_slice());
    chars_to_string(&out)
}

} // verus!
