//! What the program makes of a manga's record before downloading it: which language is
//! used, which tags are themes and genres, which file is the cover, and which languages
//! it is listed in.

use vstd::prelude::*;
use vstd::string::*;
use vstd::utf8::encode_utf8;
use crate::error::MdownError;
use crate::metadata::{TagMetadata, or_empty, string_or_empty};
use crate::show::unquoted;
use crate::text::str_eq;

verus! {

/// One entry of a manga's `availableTranslatedLanguages`: its text when it is a string,
/// and its JSON rendering.
#[derive(Debug, Clone)]
pub struct LangValue {
    pub text: Option<String>,
    pub json: String,
}

/// The `attributes` of a tag: its `group` and English `name`, when they are strings.
#[derive(Debug, Clone)]
pub struct TagAttributes {
    pub group: Option<String>,
    pub name_en: Option<String>,
}

/// A tag of a manga: its `id` when it is a string, and its attributes when present.
#[derive(Debug, Clone)]
pub struct TagValue {
    pub id: Option<String>,
    pub attributes: Option<TagAttributes>,
}

/// A relationship of a manga: its `type` and its `attributes.fileName`, when they are
/// strings.
#[derive(Debug, Clone)]
pub struct RelValue {
    pub kind: Option<String>,
    pub file_name: Option<String>,
}

/// The attributes of a manga record that the download reads.
#[derive(Debug, Clone)]
pub struct MangaAttributes {
    pub original_language: Option<String>,
    pub available_languages: Option<Vec<LangValue>>,
    pub description_en: Option<String>,
    pub tags: Option<Vec<TagValue>>,
}

/// The file name of the cover: that of the last relationship of type `cover_art` (empty
/// when it has none), or empty when there is none.
pub open spec fn cover_spec(rels: Seq<RelValue>) -> Seq<char>
    decreases rels.len(),
{
    if rels.len() == 0 {
        seq![]
    } else if or_empty(rels.last().kind) == "cover_art"@ {
        or_empty(rels.last().file_name)
    } else {
        cover_spec(rels.drop_last())
    }
}

/// The cover's file name among a manga's relationships (see [`cover_spec`]).
pub fn cover_file(rels: &Vec<RelValue>) -> (r: String)
    ensures
        r@ == cover_spec(rels@),
{
    let mut i: usize = rels.len();
    assert(rels@.subrange(0, i as int) == rels@);
    while i > 0
        invariant
            i <= rels@.len(),
            cover_spec(rels@) == cover_spec(rels@.subrange(0, i as int)),
        decreases i,
    {
        let ghost pre = rels@.subrange(0, i as int);
        assert(pre.drop_last() == rels@.subrange(0, i - 1));
        let kind = string_or_empty(&rels[i - 1].kind);
        if str_eq(kind.as_str(), "cover_art") {
            return string_or_empty(&rels[i - 1].file_name);
        }
        i = i - 1;
    }
    String::new()
}

/// The tags of group `group` that have a non-empty English name, as name and id (empty
/// when the id is missing), in order.
pub open spec fn tags_of(tags: Seq<TagValue>, group: Seq<char>) -> Seq<(Seq<char>, Seq<char>)>
    decreases tags.len(),
{
    if tags.len() == 0 {
        seq![]
    } else {
        let prev = tags_of(tags.drop_last(), group);
        let t = tags.last();
        match t.attributes {
            Some(a) => if or_empty(a.name_en).len() > 0 && or_empty(a.group) == group {
                prev.push((or_empty(a.name_en), or_empty(t.id)))
            } else {
                prev
            },
            None => prev,
        }
    }
}

/// Name and id of each tag record.
pub open spec fn tag_views(tags: Seq<TagMetadata>) -> Seq<(Seq<char>, Seq<char>)> {
    tags.map_values(|t: TagMetadata| (t.name@, t.id@))
}

/// Splits a manga's tags into themes and genres; tags of other groups, and tags without
/// an English name, are left out.
pub fn classify_tags(tags: &Vec<TagValue>) -> (r: (Vec<TagMetadata>, Vec<TagMetadata>))
    ensures
        tag_views(r.0@) == tags_of(tags@, "theme"@),
        tag_views(r.1@) == tags_of(tags@, "genre"@),
{
    let mut theme: Vec<TagMetadata> = Vec::new();
    let mut genre: Vec<TagMetadata> = Vec::new();
    let mut i: usize = 0;
    while i < tags.len()
        invariant
            i <= tags@.len(),
            tag_views(theme@) == tags_of(tags@.subrange(0, i as int), "theme"@),
            tag_views(genre@) == tags_of(tags@.subrange(0, i as int), "genre"@),
        decreases tags@.len() - i,
    {
        let ghost pre = tags@.subrange(0, i + 1);
        assert(pre.drop_last() == tags@.subrange(0, i as int));
        assert(pre.last() == tags@[i as int]);
        proof {
            reveal_strlit("theme");
            reveal_strlit("genre");
        }
        let id = string_or_empty(&tags[i].id);
        match &tags[i].attributes {
            Some(a) => {
                let typ = string_or_empty(&a.group);
                let name = string_or_empty(&a.name_en);
                if name.as_str().unicode_len() > 0 {
                    let ghost t0 = theme@;
                    let ghost g0 = genre@;
                    if str_eq(typ.as_str(), "theme") {
                        theme.push(TagMetadata::new(name.as_str(), id.as_str()));
                        assert(tag_views(theme@) =~= tag_views(t0).push((name@, id@)));
                        assert("theme"@[0] != "genre"@[0]);
                    } else if str_eq(typ.as_str(), "genre") {
                        genre.push(TagMetadata::new(name.as_str(), id.as_str()));
                        assert(tag_views(genre@) =~= tag_views(g0).push((name@, id@)));
                    }
                }
            },
            None => {},
        }
        i = i + 1;
    }
    assert(tags@.subrange(0, tags@.len() as int) == tags@);
    (theme, genre)
}

/// Whether every entry is a string.
pub open spec fn all_text(langs: Seq<LangValue>) -> bool {
    forall|i: int| 0 <= i < langs.len() ==> (#[trigger] langs[i]).text is Some
}

/// The language texts.
pub open spec fn lang_texts(langs: Seq<LangValue>) -> Seq<Seq<char>> {
    langs.map_values(|l: LangValue| or_empty(l.text))
}

/// Whether `current` can be downloaded: it is the original language, one of the
/// translations, or `*` (any).
pub open spec fn language_available(current: Seq<char>, orig: Seq<char>, langs: Seq<Seq<char>>) -> bool {
    current == orig || langs.contains(current) || current == "*"@
}

/// The language list as printed: each entry's JSON rendering without quotes, followed
/// by a space.
pub open spec fn lang_line(langs: Seq<LangValue>) -> Seq<char>
    decreases langs.len(),
{
    if langs.len() == 0 {
        seq![]
    } else {
        lang_line(langs.drop_last()) + unquoted(langs.last().json@) + " "@
    }
}

/// The byte length of [`lang_line`] without its last space: where the markers under the
/// list end.
pub open spec fn lang_span(langs: Seq<LangValue>) -> int {
    encode_utf8(lang_line(langs)).len() - 1
}

/// What is shown when the chosen language is not available.
pub open spec fn unavailable_lines(current: Seq<char>, orig: Seq<char>, langs: Seq<LangValue>) -> Seq<Seq<char>> {
    seq![
        "Language is not available\nSelected language: "@ + current,
        "Original language: "@ + orig,
        "Available languages: "@ + lang_line(langs),
        "Choose from these    "@ + Seq::new(lang_span(langs) as nat, |i: int| '^'),
    ]
}

/// How the language check of a download ends.
#[derive(Debug)]
pub enum LanguageCheck {
    /// The language can be downloaded.
    Available,
    /// It cannot: these lines tell the user what can.
    Unavailable(Vec<String>),
}

/// The outcome of the check, without its lines.
pub open spec fn language_check_spec(
    current: Seq<char>,
    orig: Option<String>,
    langs: Option<Seq<LangValue>>,
) -> Option<bool> {
    match (orig, langs) {
        (Some(o), Some(l)) => if all_text(l) {
            Some(language_available(current, o@, lang_texts(l)))
        } else {
            None
        },
        _ => None,
    }
}

fn not_found(message: &str) -> (e: MdownError)
    ensures
        e matches MdownError::NotFoundError(m, c) && m@ == message@ && c == 0,
{
    MdownError::NotFoundError(String::from_str(message), 0)
}

fn byte_len(s: &str) -> (n: usize)
    ensures
        n == encode_utf8(s@).len(),
{
    s.as_bytes().len()
}

proof fn lemma_encode_concat(a: Seq<char>, b: Seq<char>)
    ensures
        encode_utf8(a + b) == encode_utf8(a) + encode_utf8(b),
    decreases a.len(),
{
    if a.len() > 0 {
        assert((a + b).drop_first() == a.drop_first() + b);
        lemma_encode_concat(a.drop_first(), b);
        assert(encode_utf8(a + b) == vstd::utf8::encode_scalar(a[0] as u32) + encode_utf8(a.drop_first() + b));
        assert(encode_utf8(a) == vstd::utf8::encode_scalar(a[0] as u32) + encode_utf8(a.drop_first()));
    } else {
        assert(a + b == b);
    }
}

/// Checks that the language chosen for a download, `current`, is available for the
/// manga: the original language or one of its translations. A missing original
/// language or translation list is a `NotFoundError`, a translation that is not a string
/// a `ConversionError` (both with code 0). When it is not available the result holds the
/// lines that say so, with markers under the list of languages.
pub fn check_language(
    current: &str,
    orig: &Option<String>,
    langs: &Option<Vec<LangValue>>,
) -> (r: Result<LanguageCheck, MdownError>)
    requires
        langs is Some && orig is Some && all_text(langs->0@) && !language_available(
            current@,
            or_empty(*orig),
            lang_texts(langs->0@),
        ) ==> langs->0@.len() > 0 && encode_utf8(lang_line(langs->0@)).len() <= usize::MAX,
    ensures
        match language_check_spec(
            current@,
            *orig,
            match langs {
                Some(l) => Some(l@),
                None => None,
            },
        ) {
            None => r is Err,
            Some(true) => r matches Ok(LanguageCheck::Available),
            Some(false) => r matches Ok(LanguageCheck::Unavailable(lines)) && lines@.map_values(
                |s: String| s@,
            ) == unavailable_lines(current@, or_empty(*orig), langs->0@),
        },
        orig is Some && langs is Some && all_text(langs->0@) && (or_empty(*orig) == current@
            || current@ == "*"@) ==> r matches Ok(LanguageCheck::Available),
        r matches Ok(LanguageCheck::Unavailable(_)) ==> orig is Some && or_empty(*orig) != current@
            && current@ != "*"@ && forall|i: int| 0 <= i < langs->0@.len() ==> or_empty(
            #[trigger] langs->0@[i].text,
        ) != current@,
        orig is None ==> (r matches Err(MdownError::NotFoundError(m, _)) && m@ == "Didn't find originalLanguage"@),
        orig is Some && langs is None ==> (r matches Err(MdownError::NotFoundError(m, _)) && m@
            == "Didn't find availableTranslatedLanguages"@),
{
    let o = match orig {
        Some(o) => o,
        None => {
            return Err(not_found("Didn't find originalLanguage"));
        },
    };
    let l = match langs {
        Some(l) => l,
        None => {
            return Err(not_found("Didn't find availableTranslatedLanguages"));
        },
    };
    proof {
        crate::laws::law_original_language_available(current@, *o, l@);
    }
    let mut found = false;
    let mut i: usize = 0;
    while i < l.len()
        invariant
            i <= l@.len(),
            orig is Some,
            langs is Some,
            langs->0@ == l@,
            forall|k: int| 0 <= k < i ==> (#[trigger] l@[k]).text is Some,
            found == lang_texts(l@.subrange(0, i as int)).contains(current@),
        decreases l@.len() - i,
    {
        let ghost pre = lang_texts(l@.subrange(0, i + 1));
        assert(pre == lang_texts(l@.subrange(0, i as int)).push(or_empty(l@[i as int].text)));
        proof {
            lemma_push_contains(lang_texts(l@.subrange(0, i as int)), or_empty(l@[i as int].text), current@);
        }
        match &l[i].text {
            Some(t) => {
                if str_eq(t.as_str(), current) {
                    found = true;
                }
            },
            None => {
                assert(!all_text(l@)) by {
                    assert(l@[i as int].text is None);
                }
                return Err(
                    MdownError::ConversionError(
                        String::from_str("final_lang could not convert to string slice ?"),
                        0,
                    ),
                );
            },
        }
        i = i + 1;
    }
    assert(l@.subrange(0, l@.len() as int) == l@);
    if str_eq(current, o.as_str()) || found || str_eq(current, "*") {
        proof {
            reveal_strlit("*");
        }
        return Ok(LanguageCheck::Available);
    }
    proof {
        reveal_strlit("*");
    }
    let mut line: String = String::new();
    let mut j: usize = 0;
    while j < l.len()
        invariant
            j <= l@.len(),
            line@ == lang_line(l@.subrange(0, j as int)),
        decreases l@.len() - j,
    {
        let ghost pre = l@.subrange(0, j + 1);
        assert(pre.drop_last() == l@.subrange(0, j as int));
        let u = crate::show::remove_quotes(l[j].json.as_str());
        line.append(u.as_str());
        line.append(" ");
        j = j + 1;
    }
    assert(l@.subrange(0, l@.len() as int) == l@);
    let n = byte_len(line.as_str());
    proof {
        reveal_strlit(" ");
        lemma_line_nonempty(l@);
    }
    let span = n - 1;
    let mut markers = String::from_str("Choose from these    ");
    let mut k: usize = 0;
    let ghost head = markers@;
    while k < span
        invariant
            k <= span,
            markers@ == head + Seq::new(k as nat, |i: int| '^'),
        decreases span - k,
    {
        markers.append("^");
        proof {
            reveal_strlit("^");
        }
        k = k + 1;
        assert(markers@ =~= head + Seq::new(k as nat, |i: int| '^'));
    }
    let mut first = String::from_str("Language is not available\nSelected language: ");
    first.append(current);
    let mut second = String::from_str("Original language: ");
    second.append(o.as_str());
    let mut third = String::from_str("Available languages: ");
    third.append(line.as_str());
    let mut lines: Vec<String> = Vec::new();
    lines.push(first);
    lines.push(second);
    lines.push(third);
    lines.push(markers);
    assert(lines@.map_values(|s: String| s@) =~= unavailable_lines(current@, o@, l@));
    Ok(LanguageCheck::Unavailable(lines))
}

proof fn lemma_push_contains<A>(s: Seq<A>, x: A, y: A)
    ensures
        s.push(x).contains(y) == (s.contains(y) || x == y),
{
    let t = s.push(x);
    if s.contains(y) {
        let k = choose|k: int| 0 <= k < s.len() && s[k] == y;
        assert(t[k] == y);
    }
    if x == y {
        assert(t[s.len() as int] == y);
    }
    if t.contains(y) {
        let k = choose|k: int| 0 <= k < t.len() && t[k] == y;
        if k < s.len() {
            assert(s[k] == y);
        }
    }
}

proof fn lemma_line_nonempty(langs: Seq<LangValue>)
    requires
        langs.len() > 0,
    ensures
        encode_utf8(lang_line(langs)).len() >= 1,
{
    let pre = lang_line(langs.drop_last()) + unquoted(langs.last().json@);
    assert(lang_line(langs) == pre + " "@);
    lemma_encode_concat(pre, " "@);
    assert(encode_utf8(" "@).len() >= 1) by {
        reveal_strlit(" ");
        assert(" "@.len() == 1);
        assert(" "@.drop_first() =~= Seq::<char>::empty());
    }
}

/// The languages a manga is listed in, as stored: each entry's JSON rendering without
/// its quotes.
pub fn language_list(langs: &Vec<LangValue>) -> (r: Vec<String>)
    ensures
        r@.map_values(|s: String| s@) == langs@.map_values(|l: LangValue| unquoted(l.json@)),
{
    let mut r: Vec<String> = Vec::new();
    let mut i: usize = 0;
    while i < langs.len()
        invariant
            i <= langs@.len(),
            r@.map_values(|s: String| s@) == langs@.subrange(0, i as int).map_values(
                |l: LangValue| unquoted(l.json@),
            ),
        decreases langs@.len() - i,
    {
        let ghost before = r@;
        r.push(crate::show::remove_quotes(langs[i].json.as_str()));
        assert(r@.map_values(|s: String| s@) =~= before.map_values(|s: String| s@).push(
            unquoted(langs@[i as int].json@),
        ));
        i = i + 1;
        assert(langs@.subrange(0, i as int).map_values(|l: LangValue| unquoted(l.json@)) =~= langs@.subrange(
            0,
            i - 1,
        ).map_values(|l: LangValue| unquoted(l.json@)).push(unquoted(langs@[i - 1].json@)));
    }
    assert(langs@.subrange(0, langs@.len() as int) == langs@);
    r
}

/// The manga name used: the one given with `--title`, or, when that is `*`, the one
/// taken from the record (`from_record`).
pub fn chosen_name(title: &str, from_record: String) -> (r: String)
    ensures
        r@ == (if title@ == "*"@ { from_record@ } else { title@ }),
{
    proof {
        reveal_strlit("*");
    }
    if str_eq(title, "*") {
        from_record
    } else {
        String::from_str(title)
    }
}

} // verus!
