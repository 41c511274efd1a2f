//! Deciding, chapter by chapter, what a download run does with a manga's feed.

use vstd::prelude::*;
use vstd::string::*;
use crate::metadata::ChapterMetadata;
use crate::text::{chars_eq, parse_unsigned, parse_unsigned_chars, str_chars, str_eq};

verus! {

/// `*` when the option is empty, else the option itself.
pub open spec fn arg_or_any(arg: Seq<char>) -> Seq<char> {
    if arg.len() == 0 { "*"@ } else { arg }
}

/// The option, or `*` (any) when it is empty.
pub fn get_arg(arg: &str) -> (r: &str)
    ensures
        r@ == arg_or_any(arg@),
{
    if arg.is_empty() {
        "*"
    } else {
        arg
    }
}

/// Whether a chapter is skipped because the option `arg` asks for something else than
/// `with`; `*` matches everything.
pub open spec fn skip_spec(arg: Seq<char>, with: Seq<char>) -> bool {
    !(arg == "*"@ || arg == with)
}

/// Whether the option `arg` excludes the value `with`.
pub fn resolve_skip(arg: &str, with: &str) -> (r: bool)
    ensures
        r == skip_spec(arg@, with@),
{
    if str_eq(arg, "*") || str_eq(arg, with) {
        return false;
    }
    true
}

/// The title without one trailing `.`.
pub open spec fn title_spec(t: Seq<char>) -> Seq<char> {
    if t.len() > 0 && t.last() == '.' { t.drop_last() } else { t }
}

/// Removes one trailing `.` from a chapter title.
pub fn title(t: String) -> (r: String)
    ensures
        r@ == title_spec(t@),
{
    let chars = str_chars(t.as_str());
    if chars.len() > 0 && chars[chars.len() - 1] == '.' {
        let mut shorter = chars;
        shorter.pop();
        crate::text::chars_to_string(shorter.as_slice())
    } else {
        t
    }
}

/// The volume part of a chapter's file name: `Vol.<v> `, or empty.
pub open spec fn volume_label_spec(volume: Option<String>) -> Seq<char> {
    match volume {
        Some(v) => if v@.len() == 0 { Seq::empty() } else { "Vol."@ + v@ + " "@ },
        None => Seq::empty(),
    }
}

/// The volume part of a chapter's file name.
pub fn volume_label(volume: &Option<String>) -> (r: String)
    ensures
        r@ == volume_label_spec(*volume),
{
    match volume {
        Some(v) => {
            if v.as_str().is_empty() {
                String::new()
            } else {
                let mut s = String::from_str("Vol.");
                s.append(v.as_str());
                s.append(" ");
                s
            }
        },
        None => String::new(),
    }
}

/// The chapter offset: the option parsed as `u32`, 0 when it does not parse.
pub open spec fn offset_spec(offset: Seq<char>) -> u32 {
    match parse_unsigned(arg_or_any(offset), 0xffff_ffff) {
        Some(v) => v as u32,
        None => 0,
    }
}

/// Reads the `--offset` option.
pub fn parse_offset(offset: &str) -> (r: u32)
    ensures
        r == offset_spec(offset@),
{
    let arg = get_arg(offset);
    let chars = str_chars(arg);
    match parse_unsigned_chars(chars.as_slice(), 0xffff_ffff) {
        Some(v) => v as u32,
        None => 0,
    }
}

/// A key and a value of a small map kept as a list.
#[derive(Debug, Clone)]
pub struct Entry {
    pub key: String,
    pub value: String,
}

/// The value of the last entry with key `key`.
pub open spec fn assoc_get(es: Seq<Entry>, key: Seq<char>) -> Option<Seq<char>>
    decreases es.len(),
{
    if es.len() == 0 {
        None
    } else if es.last().key@ == key {
        Some(es.last().value@)
    } else {
        assoc_get(es.drop_last(), key)
    }
}

/// The entries without key `key`.
pub open spec fn assoc_remove(es: Seq<Entry>, key: Seq<char>) -> Seq<Entry>
    decreases es.len(),
{
    if es.len() == 0 {
        es
    } else if es.last().key@ == key {
        assoc_remove(es.drop_last(), key)
    } else {
        assoc_remove(es.drop_last(), key).push(es.last())
    }
}

/// The value stored under `key`.
pub fn assoc_lookup(es: &Vec<Entry>, key: &str) -> (r: Option<String>)
    ensures
        match assoc_get(es@, key@) {
            Some(v) => r matches Some(s) && s@ == v,
            None => r is None,
        },
{
    let k = str_chars(key);
    let mut i: usize = es.len();
    assert(es@.subrange(0, i as int) == es@);
    while i > 0
        invariant
            i <= es@.len(),
            k@ == key@,
            assoc_get(es@, key@) == assoc_get(es@.subrange(0, i as int), key@),
        decreases i,
    {
        assert(es@.subrange(0, i as int).drop_last() == es@.subrange(0, i - 1));
        let ek = str_chars(es[i - 1].key.as_str());
        if chars_eq(ek.as_slice(), k.as_slice()) {
            return Some(es[i - 1].value.clone());
        }
        i = i - 1;
    }
    None
}

/// Removes every entry with key `key`.
pub fn assoc_delete(es: &mut Vec<Entry>, key: &str)
    ensures
        final(es)@ == assoc_remove(old(es)@, key@),
{
    let k = str_chars(key);
    let mut kept: Vec<Entry> = Vec::new();
    let mut i: usize = 0;
    while i < es.len()
        invariant
            i <= es@.len(),
            k@ == key@,
            kept@ == assoc_remove(es@.subrange(0, i as int), key@),
        decreases es@.len() - i,
    {
        assert(es@.subrange(0, i + 1).drop_last() == es@.subrange(0, i as int));
        let ek = str_chars(es[i].key.as_str());
        if !chars_eq(ek.as_slice(), k.as_slice()) {
            kept.push(Entry { key: es[i].key.clone(), value: es[i].value.clone() });
        }
        i = i + 1;
    }
    assert(es@.subrange(0, es@.len() as int) == es@);
    *es = kept;
}

/// The record of a chapter as a triple: number, update time and id.
pub open spec fn chapter_view(c: ChapterMetadata) -> (Seq<char>, Seq<char>, Seq<char>) {
    (c.number@, c.updated_at@, c.id@)
}

/// Chapter records as triples.
pub open spec fn chapters_view(cs: Seq<ChapterMetadata>) -> Seq<(Seq<char>, Seq<char>, Seq<char>)> {
    cs.map_values(|c: ChapterMetadata| chapter_view(c))
}

/// Whether some record has chapter number `number`.
pub open spec fn has_number(cs: Seq<(Seq<char>, Seq<char>, Seq<char>)>, number: Seq<char>) -> bool {
    exists|i: int| 0 <= i < cs.len() && #[trigger] cs[i].0 == number
}

/// Whether some string equals `s`.
pub open spec fn has_string(ss: Seq<String>, s: Seq<char>) -> bool {
    exists|i: int| 0 <= i < ss.len() && #[trigger] ss[i]@ == s
}

/// What does not change during a download run.
pub struct ChapterPlan {
    /// Language wanted, `*` for any.
    pub language: String,
    /// `--volume` after [`get_arg`].
    pub arg_volume: String,
    /// `--chapter` after [`get_arg`].
    pub arg_chapter: String,
    /// Chapters to pass over first.
    pub arg_offset: u32,
    pub force: bool,
    /// Only checking for updates.
    pub check: bool,
    /// Checking and downloading updates.
    pub update: bool,
    /// Ids of chapters whose archives are in the working directory.
    pub all_ids: Vec<String>,
}

/// What a download run has learnt so far.
pub struct ChapterState {
    /// Chapters known to be downloaded.
    pub chapters: Vec<ChapterMetadata>,
    /// Database records to drop.
    pub chapters_to_remove: Vec<ChapterMetadata>,
    /// Chapter numbers whose stored date was ahead of MangaDex's.
    pub fixed_dates: Vec<String>,
    /// Stored update time by chapter number.
    pub chapter_dates: Vec<Entry>,
    /// Stored id by chapter number.
    pub chapter_ids: Vec<Entry>,
    /// Chapter numbers that a check found missing.
    pub to_download: Vec<String>,
    /// Chapter numbers that a check found outdated.
    pub to_download_date: Vec<String>,
    /// Chapters passed over because of the offset.
    pub times: u32,
    /// Chapters parsed.
    pub parsed: u64,
    /// Chapters to parse.
    pub parsed_max: u64,
}

/// What happens to one chapter of the feed.
#[derive(Debug, Clone, Copy, PartialEq, Eq)]
pub enum ChapterAction {
    /// Its archive is up to date.
    SkipDownloaded,
    /// `--volume` excludes it.
    SkipVolume,
    /// `--chapter` excludes it.
    SkipChapter,
    /// It has no pages on MangaDex.
    SkipNoPages,
    /// The offset passes over it.
    SkipOffset,
    /// A check records it as missing or outdated.
    Queue,
    /// Download it.
    Download,
    /// Its language is not wanted, or it is already known.
    SkipLanguage,
}

/// One chapter of the feed, with what the file system says of it.
pub struct ChapterFacts {
    pub id: String,
    pub lang: String,
    pub pages: u64,
    pub chapter_num: String,
    /// The `Vol.<v> ` label used in file names, empty when the chapter has no volume.
    pub vol: String,
    /// The bare volume number that `--volume` is compared with, empty when none.
    pub volume: String,
    pub updated_at: String,
    /// Whether the chapter's archive exists.
    pub file_exists: bool,
    /// Whether the archive was made with the other image quality.
    pub saver_differs: bool,
}

/// Whether the chapter's language is wanted.
pub open spec fn lang_ok(plan: ChapterPlan, f: ChapterFacts) -> bool {
    f.lang@ == plan.language@ || plan.language@ == "*"@
}

/// Whether the archive of the chapter counts as downloaded.
pub open spec fn counts_downloaded(plan: ChapterPlan, s: ChapterState, f: ChapterFacts) -> bool {
    let data_id = match assoc_get(s.chapter_ids@, f.chapter_num@) {
        Some(v) => v,
        None => Seq::empty(),
    };
    &&& lang_ok(plan, f)
    &&& f.file_exists
    &&& !plan.force
    &&& !(f.saver_differs && !plan.check)
    &&& (plan.check ==> !(data_id != f.id@ && data_id.len() != 0))
}

/// The stored update time of the chapter, empty when none is stored.
pub open spec fn stored_date(s: ChapterState, f: ChapterFacts) -> Seq<char> {
    match assoc_get(s.chapter_dates@, f.chapter_num@) {
        Some(v) => v,
        None => Seq::empty(),
    }
}

/// The action for a chapter; `order` compares the stored update time with MangaDex's
/// (1: stored is later, -1: stored is earlier, 0: equal, `None`: one does not parse).
pub open spec fn action_spec(
    plan: ChapterPlan,
    s: ChapterState,
    f: ChapterFacts,
    order: Option<i8>,
) -> ChapterAction {
    let downloaded = counts_downloaded(plan, s, f);
    if downloaded && order != Some(-1i8) {
        ChapterAction::SkipDownloaded
    } else if skip_spec(plan.arg_volume@, f.volume@) {
        ChapterAction::SkipVolume
    } else if skip_spec(plan.arg_chapter@, f.chapter_num@) {
        ChapterAction::SkipChapter
    } else if f.pages == 0 {
        ChapterAction::SkipNoPages
    } else if lang_ok(plan, f) && !has_number(chapters_view(s.chapters@), f.chapter_num@)
        && !has_string(plan.all_ids@, f.id@) {
        if plan.arg_offset > s.times {
            ChapterAction::SkipOffset
        } else if plan.check {
            ChapterAction::Queue
        } else {
            ChapterAction::Download
        }
    } else {
        ChapterAction::SkipLanguage
    }
}

/// The chapter record `(number, date, id)` of this chapter.
pub open spec fn record(f: ChapterFacts, date: Seq<char>) -> (Seq<char>, Seq<char>, Seq<char>) {
    (f.chapter_num@, date, f.id@)
}

/// Chapter state after the downloaded-archive checks: the date comparison may fix a date,
/// mark an outdated chapter and forget its stored date.
pub open spec fn after_dates(
    plan: ChapterPlan,
    s: ChapterState,
    f: ChapterFacts,
    order: Option<i8>,
) -> (Seq<Seq<char>>, Seq<(Seq<char>, Seq<char>, Seq<char>)>, Seq<Entry>) {
    let fixed = s.fixed_dates@.map_values(|x: String| x@);
    let remove = chapters_view(s.chapters_to_remove@);
    let dates = s.chapter_dates@;
    if counts_downloaded(plan, s, f) {
        if order == Some(1i8) {
            (fixed.push(f.chapter_num@), remove.push(record(f, stored_date(s, f))), dates)
        } else if order == Some(-1i8) {
            (
                fixed,
                if plan.update { remove.push(record(f, stored_date(s, f))) } else { remove },
                assoc_remove(dates, f.chapter_num@),
            )
        } else {
            (fixed, remove, dates)
        }
    } else {
        (fixed, remove, dates)
    }
}


/// Whether the action counts the chapter as parsed a second time (it reached the
/// download checks).
pub open spec fn reached_download_checks(a: ChapterAction) -> bool {
    a == ChapterAction::SkipOffset || a == ChapterAction::Queue || a == ChapterAction::Download
}

/// The records to drop after a chapter.
pub open spec fn removal_after(
    plan: ChapterPlan,
    s: ChapterState,
    f: ChapterFacts,
    order: Option<i8>,
) -> Seq<(Seq<char>, Seq<char>, Seq<char>)> {
    let (_, rem, dates) = after_dates(plan, s, f, order);
    if plan.check && reached_download_checks(action_spec(plan, s, f, order)) {
        rem.push(
            record(
                f,
                match assoc_get(dates, f.chapter_num@) {
                    Some(v) => v,
                    None => Seq::empty(),
                },
            ),
        )
    } else {
        rem
    }
}

/// Whether the chapter was found outdated.
pub open spec fn date_changed(plan: ChapterPlan, s: ChapterState, f: ChapterFacts, order: Option<i8>) -> bool {
    counts_downloaded(plan, s, f) && order == Some(-1i8)
}

/// Number of times the chapter is counted as parsed.
pub open spec fn parsed_increment(plan: ChapterPlan, s: ChapterState, f: ChapterFacts, order: Option<i8>) -> nat {
    let a = action_spec(plan, s, f, order);
    (if counts_downloaded(plan, s, f) { 1nat } else { 0nat }) + (if reached_download_checks(a) {
        1nat
    } else {
        0nat
    }) + (if a == ChapterAction::SkipOffset { 1nat } else { 0nat })
}

/// A copy of a chapter record.
fn clone_chapter(c: &ChapterMetadata) -> (r: ChapterMetadata)
    ensures
        r == *c,
{
    ChapterMetadata { updated_at: c.updated_at.clone(), number: c.number.clone(), id: c.id.clone() }
}

proof fn lemma_push_chapter(cs: Seq<ChapterMetadata>, c: ChapterMetadata)
    ensures
        chapters_view(cs.push(c)) == chapters_view(cs).push(chapter_view(c)),
{
    assert(chapters_view(cs.push(c)) =~= chapters_view(cs).push(chapter_view(c)));
}

/// Whether some chapter record has number `number`.
fn has_chapter_number(cs: &Vec<ChapterMetadata>, number: &str) -> (r: bool)
    ensures
        r == has_number(chapters_view(cs@), number@),
{
    let n = str_chars(number);
    let mut i: usize = 0;
    while i < cs.len()
        invariant
            i <= cs@.len(),
            n@ == number@,
            forall|k: int| 0 <= k < i ==> cs@[k].number@ != number@,
        decreases cs@.len() - i,
    {
        let c = str_chars(cs[i].number.as_str());
        if chars_eq(c.as_slice(), n.as_slice()) {
            assert(chapters_view(cs@)[i as int].0 == number@);
            return true;
        }
        i = i + 1;
    }
    assert forall|k: int| 0 <= k < chapters_view(cs@).len() implies #[trigger] chapters_view(
        cs@,
    )[k].0 != number@ by {
        assert(chapters_view(cs@)[k].0 == cs@[k].number@);
    }
    false
}

/// Whether some string equals `s`.
fn contains_string(ss: &Vec<String>, s: &str) -> (r: bool)
    ensures
        r == has_string(ss@, s@),
{
    let mut i: usize = 0;
    while i < ss.len()
        invariant
            i <= ss@.len(),
            forall|k: int| 0 <= k < i ==> ss@[k]@ != s@,
        decreases ss@.len() - i,
    {
        if str_eq(ss[i].as_str(), s) {
            return true;
        }
        i = i + 1;
    }
    false
}

/// What one chapter step does: the action is [`action_spec`] and the state `after` is
/// `before` with the records, dates, lists and counters that the action changes.
pub open spec fn chapter_stepped(
    plan: ChapterPlan,
    before: ChapterState,
    facts: ChapterFacts,
    order: Option<i8>,
    r: ChapterAction,
    after: ChapterState,
) -> bool {
    &&& r == action_spec(plan, before, facts, order)
    &&& chapters_view(after.chapters@) == (if counts_downloaded(plan, before, facts)
            && order != Some(-1i8) {
            chapters_view(before.chapters@).push(record(facts, facts.updated_at@))
        } else {
            chapters_view(before.chapters@)
        })
    &&& after.fixed_dates@.map_values(|x: String| x@) == after_dates(plan, before, facts, order).0
    &&& after.chapter_dates@ == after_dates(plan, before, facts, order).2
    &&& chapters_view(after.chapters_to_remove@) == removal_after(plan, before, facts, order)
    &&& after.chapter_ids == before.chapter_ids
    &&& after.times == (if r == ChapterAction::SkipOffset {
            before.times + 1
        } else {
            before.times as int
        })
    &&& after.parsed == before.parsed + parsed_increment(plan, before, facts, order)
    &&& after.parsed_max == (if r == ChapterAction::SkipLanguage {
            before.parsed_max - 1
        } else {
            before.parsed_max as int
        })
    &&& after.to_download@.map_values(|x: String| x@) == (if r == ChapterAction::Queue
            && !date_changed(plan, before, facts, order) {
            before.to_download@.map_values(|x: String| x@).push(facts.chapter_num@)
        } else {
            before.to_download@.map_values(|x: String| x@)
        })
    &&& after.to_download_date@.map_values(|x: String| x@) == (if r == ChapterAction::Queue
            && date_changed(plan, before, facts, order) {
            before.to_download_date@.map_values(|x: String| x@).push(facts.chapter_num@)
        } else {
            before.to_download_date@.map_values(|x: String| x@)
        })
}

/// Decides what happens to one chapter and records it in the run's state, given the
/// comparison `order` of the stored and the current update time (see [`action_spec`]).
pub fn chapter_step_with(
    plan: &ChapterPlan,
    state: &mut ChapterState,
    facts: &ChapterFacts,
    order: Option<i8>,
) -> (r: ChapterAction)
    requires
        old(state).parsed + 3 <= u64::MAX,
        old(state).times < u32::MAX,
        old(state).parsed_max >= 1,
    ensures
        chapter_stepped(*plan, *old(state), *facts, order, r, *final(state)),
        r == ChapterAction::SkipChapter ==> plan.arg_chapter@ != "*"@ && plan.arg_chapter@
            != facts.chapter_num@,
        plan.arg_chapter@ == facts.chapter_num@ ==> r != ChapterAction::SkipChapter,
        r == ChapterAction::SkipVolume ==> plan.arg_volume@ != "*"@ && plan.arg_volume@ != facts.volume@,
        plan.arg_volume@ == facts.volume@ ==> r != ChapterAction::SkipVolume,
{
    let ghost s0 = *state;
    let lang_matches = str_eq(facts.lang.as_str(), plan.language.as_str()) || str_eq(
        plan.language.as_str(),
        "*",
    );
    let data_id = match assoc_lookup(&state.chapter_ids, facts.chapter_num.as_str()) {
        Some(v) => v,
        None => String::new(),
    };
    let id_ok = !plan.check || !(!str_eq(data_id.as_str(), facts.id.as_str())
        && !data_id.as_str().is_empty());
    let downloaded = lang_matches && facts.file_exists && !plan.force && !(facts.saver_differs
        && !plan.check) && id_ok;
    assert(downloaded == counts_downloaded(*plan, s0, *facts));
    let mut date_change = false;
    if downloaded {
        let cur_date = match assoc_lookup(&state.chapter_dates, facts.chapter_num.as_str()) {
            Some(v) => v,
            None => String::new(),
        };
        assert(cur_date@ == stored_date(s0, *facts));
        let mut cont = true;
        if order == Some(1i8) {
            state.fixed_dates.push(facts.chapter_num.clone());
            proof {
                assert(state.fixed_dates@.map_values(|x: String| x@) =~= s0.fixed_dates@.map_values(
                    |x: String| x@,
                ).push(facts.chapter_num@));
                lemma_push_chapter(
                    s0.chapters_to_remove@,
                    ChapterMetadata::new_spec(facts.chapter_num, cur_date, facts.id),
                );
            }
            state.chapters_to_remove.push(
                ChapterMetadata {
                    updated_at: cur_date.clone(),
                    number: facts.chapter_num.clone(),
                    id: facts.id.clone(),
                },
            );
        } else if order == Some(-1i8) {
            date_change = true;
            cont = false;
            assoc_delete(&mut state.chapter_dates, facts.chapter_num.as_str());
            if plan.update {
                proof {
                    lemma_push_chapter(
                        s0.chapters_to_remove@,
                        ChapterMetadata::new_spec(facts.chapter_num, cur_date, facts.id),
                    );
                }
                state.chapters_to_remove.push(
                    ChapterMetadata {
                        updated_at: cur_date.clone(),
                        number: facts.chapter_num.clone(),
                        id: facts.id.clone(),
                    },
                );
            }
        }
        state.parsed = state.parsed + 1;
        if cont {
            proof {
                lemma_push_chapter(
                    s0.chapters@,
                    ChapterMetadata::new_spec(facts.chapter_num, facts.updated_at, facts.id),
                );
            }
            state.chapters.push(
                ChapterMetadata {
                    updated_at: facts.updated_at.clone(),
                    number: facts.chapter_num.clone(),
                    id: facts.id.clone(),
                },
            );
            return ChapterAction::SkipDownloaded;
        }
    }
    assert(state.chapters == s0.chapters);
    if resolve_skip(plan.arg_volume.as_str(), facts.volume.as_str()) {
        return ChapterAction::SkipVolume;
    }
    if resolve_skip(plan.arg_chapter.as_str(), facts.chapter_num.as_str()) {
        return ChapterAction::SkipChapter;
    }
    if facts.pages == 0 {
        return ChapterAction::SkipNoPages;
    }
    if lang_matches && !has_chapter_number(&state.chapters, facts.chapter_num.as_str())
        && !contains_string(&plan.all_ids, facts.id.as_str()) {
        if plan.check {
            let cur_date = match assoc_lookup(&state.chapter_dates, facts.chapter_num.as_str()) {
                Some(v) => v,
                None => String::new(),
            };
            let ghost before = state.chapters_to_remove@;
            proof {
                lemma_push_chapter(
                    before,
                    ChapterMetadata::new_spec(facts.chapter_num, cur_date, facts.id),
                );
            }
            state.chapters_to_remove.push(
                ChapterMetadata {
                    updated_at: cur_date,
                    number: facts.chapter_num.clone(),
                    id: facts.id.clone(),
                },
            );
        }
        state.parsed = state.parsed + 1;
        if plan.arg_offset > state.times {
            state.times = state.times + 1;
            state.parsed = state.parsed + 1;
            return ChapterAction::SkipOffset;
        }
        if plan.check {
            if date_change {
                state.to_download_date.push(facts.chapter_num.clone());
                assert(state.to_download_date@.map_values(|x: String| x@) =~= s0.to_download_date@.map_values(
                    |x: String| x@,
                ).push(facts.chapter_num@));
            } else {
                state.to_download.push(facts.chapter_num.clone());
                assert(state.to_download@.map_values(|x: String| x@) =~= s0.to_download@.map_values(
                    |x: String| x@,
                ).push(facts.chapter_num@));
            }
            return ChapterAction::Queue;
        }
        return ChapterAction::Download;
    }
    state.parsed_max = state.parsed_max - 1;
    ChapterAction::SkipLanguage
}


/// How two RFC 3339 times compare, as `chrono` parses and orders them: `Some(-1)`, `Some(0)`
/// or `Some(1)` when the first is earlier, equal or later, `None` when either does not
/// parse.
pub uninterp spec fn rfc3339_order(first: Seq<char>, second: Seq<char>) -> Option<i8>;

/// Calls `chrono::DateTime::parse_from_rfc3339` on both texts and compares the instants;
/// the contract claims that the result is [`rfc3339_order`] of the texts and one of -1, 0
/// and 1.
#[verifier::external_body]
fn compare_rfc3339(first: &str, second: &str) -> (r: Option<i8>)
    ensures
        r == rfc3339_order(first@, second@),
        r matches Some(v) ==> -1 <= v <= 1,
{
    let a = match chrono::DateTime::parse_from_rfc3339(first) {
        Ok(t) => t,
        Err(_) => return None,
    };
    let b = match chrono::DateTime::parse_from_rfc3339(second) {
        Ok(t) => t,
        Err(_) => return None,
    };
    match a.cmp(&b) {
        std::cmp::Ordering::Less => Some(-1),
        std::cmp::Ordering::Equal => Some(0),
        std::cmp::Ordering::Greater => Some(1),
    }
}

/// Decides what happens to one chapter and records it, comparing the stored update time
/// with MangaDex's as [`rfc3339_order`] does.
pub fn chapter_step(plan: &ChapterPlan, state: &mut ChapterState, facts: &ChapterFacts) -> (r:
    ChapterAction)
    requires
        old(state).parsed + 3 <= u64::MAX,
        old(state).times < u32::MAX,
        old(state).parsed_max >= 1,
    ensures
        chapter_stepped(
            *plan,
            *old(state),
            *facts,
            rfc3339_order(stored_date(*old(state), *facts), facts.updated_at@),
            r,
            *final(state),
        ),
        r == ChapterAction::SkipChapter ==> plan.arg_chapter@ != "*"@ && plan.arg_chapter@
            != facts.chapter_num@,
        plan.arg_chapter@ == facts.chapter_num@ ==> r != ChapterAction::SkipChapter,
        r == ChapterAction::SkipVolume ==> plan.arg_volume@ != "*"@ && plan.arg_volume@ != facts.volume@,
        plan.arg_volume@ == facts.volume@ ==> r != ChapterAction::SkipVolume,
{
    let cur_date = match assoc_lookup(&state.chapter_dates, facts.chapter_num.as_str()) {
        Some(v) => v,
        None => String::new(),
    };
    let order = compare_rfc3339(cur_date.as_str(), facts.updated_at.as_str());
    chapter_step_with(plan, state, facts, order)
}

} // verus!
