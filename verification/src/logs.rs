//! The log of a run: log entries, how they are merged into the log file, and what
//! `database --show-log` lists.

use vstd::prelude::*;
use vstd::string::*;
use vstd::utf8::encode_utf8;
use crate::error::MdownError;
use crate::text::{str_chars, chars_to_string, str_eq, parse_unsigned};

verus! {

/// One message of the log: the session it belongs to, the text, when, and the chapter
/// (or other part) it concerns.
#[derive(Debug, Clone)]
pub struct Log {
    pub handle_id: String,
    pub message: String,
    pub time: String,
    pub name: String,
}

/// The current time as RFC 3339 text (`chrono::Utc::now().to_rfc3339()`); nothing is
/// claimed of the text.
#[verifier::external_body]
fn now_rfc3339() -> String {
    chrono::Utc::now().to_rfc3339()
}

impl Log {
    /// A log message of session `handle_id` about `name`, stamped with the current time.
    pub fn new(message: &str, handle_id: &str, name: &str) -> (r: Log)
        ensures
            r.message@ == message@,
            r.handle_id@ == handle_id@,
            r.name@ == name@,
    {
        Log {
            handle_id: String::from_str(handle_id),
            message: String::from_str(message),
            time: now_rfc3339(),
            name: String::from_str(name),
        }
    }
}

/// `s` with every occurrence of the two characters `a`, `b` removed, scanning from the
/// left (`str::replace` with an empty replacement).
pub open spec fn remove_pair(s: Seq<char>, a: char, b: char) -> Seq<char>
    decreases s.len(),
{
    if s.len() == 0 {
        s
    } else if s.len() >= 2 && s[0] == a && s[1] == b {
        remove_pair(s.subrange(2, s.len() as int), a, b)
    } else {
        seq![s[0]] + remove_pair(s.drop_first(), a, b)
    }
}

/// A message as it is written to the log file: the escapes `\n`, `\r`, `\t`, `\\`, `\'`,
/// `\"` and `\0` (a backslash and a letter, as text) removed one after the other.
pub open spec fn cleaned(s: Seq<char>) -> Seq<char> {
    let s1 = remove_pair(s, '\\', 'n');
    let s2 = remove_pair(s1, '\\', 'r');
    let s3 = remove_pair(s2, '\\', 't');
    let s4 = remove_pair(s3, '\\', '\\');
    let s5 = remove_pair(s4, '\\', '\'');
    let s6 = remove_pair(s5, '\\', '"');
    remove_pair(s6, '\\', '0')
}

fn remove_pair_chars(s: Vec<char>, a: char, b: char) -> (r: Vec<char>)
    ensures
        r@ == remove_pair(s@, a, b),
{
    let n = s.len();
    let mut out: Vec<char> = Vec::new();
    let mut i: usize = 0;
    assert(s@.subrange(0, n as int) == s@);
    assert(out@ + s@ == s@);
    while i < n
        invariant
            i <= n,
            n == s@.len(),
            out@ + remove_pair(s@.subrange(i as int, n as int), a, b) == remove_pair(s@, a, b),
        decreases n - i,
    {
        let ghost rest = s@.subrange(i as int, n as int);
        if i + 1 < n && s[i] == a && s[i + 1] == b {
            assert(rest.subrange(2, rest.len() as int) == s@.subrange(i + 2, n as int));
            i = i + 2;
        } else {
            assert(rest.drop_first() == s@.subrange(i + 1, n as int));
            out.push(s[i]);
            assert(out@ + remove_pair(s@.subrange(i + 1, n as int), a, b) == out@.drop_last() + (seq![s@[i as int]]
                + remove_pair(rest.drop_first(), a, b)));
            i = i + 1;
        }
    }
    assert(s@.subrange(n as int, n as int) == Seq::<char>::empty());
    assert(out@ + Seq::<char>::empty() == out@);
    out
}

/// The message as written to the log file (see [`cleaned`]).
pub fn clean_message(message: &str) -> (r: String)
    ensures
        r@ == cleaned(message@),
{
    let s0 = str_chars(message);
    let s1 = remove_pair_chars(s0, '\\', 'n');
    let s2 = remove_pair_chars(s1, '\\', 'r');
    let s3 = remove_pair_chars(s2, '\\', 't');
    let s4 = remove_pair_chars(s3, '\\', '\\');
    let s5 = remove_pair_chars(s4, '\\', '\'');
    let s6 = remove_pair_chars(s5, '\\', '"');
    let s7 = remove_pair_chars(s6, '\\', '0');
    chars_to_string(s7.as_slice())
}

/// The kind of a session as the log file records it, from the byte length of its id:
/// ten for the web interface, sixteen for the downloader.
pub open spec fn session_kind_spec(id: Seq<char>) -> Seq<char> {
    let n = encode_utf8(id).len();
    if n == 10 {
        "web"@
    } else if n == 16 {
        "downloader"@
    } else {
        "unknown"@
    }
}

/// The kind of the session with id `id` (see [`session_kind_spec`]).
pub fn session_kind(id: &str) -> (r: String)
    ensures
        r@ == session_kind_spec(id@),
{
    let n = id.as_bytes().len();
    if n == 10 {
        String::from_str("web")
    } else if n == 16 {
        String::from_str("downloader")
    } else {
        String::from_str("unknown")
    }
}

/// The kind that `--show-log` guesses for a session from the byte length of its id:
/// twelve for the web interface, sixteen for the downloader.
pub open spec fn probable_kind_spec(id: Seq<char>) -> Seq<char> {
    let n = encode_utf8(id).len();
    if n == 12 {
        "web"@
    } else if n == 16 {
        "downloader"@
    } else {
        "unknown"@
    }
}

/// The kind that `--show-log` prints beside a session (see [`probable_kind_spec`]).
pub fn probable_kind(id: &str) -> (r: String)
    ensures
        r@ == probable_kind_spec(id@),
{
    let n = id.as_bytes().len();
    if n == 12 {
        String::from_str("web")
    } else if n == 16 {
        String::from_str("downloader")
    } else {
        String::from_str("unknown")
    }
}

/// One part of a session's log: a chapter (or `""` for the general part) and its lines.
#[derive(Debug, Clone)]
pub struct LogPart {
    pub name: String,
    pub lines: Vec<String>,
}

/// One session of the log file.
#[derive(Debug, Clone)]
pub struct LogSession {
    pub id: String,
    pub parts: Vec<LogPart>,
    pub kind: String,
    pub time_start: String,
    /// `None` while the session runs.
    pub time_end: Option<String>,
    /// Manga name, id and folder of a download session.
    pub manga: Option<(String, String, String)>,
}

/// The lines of part `name`, empty when there is none.
pub open spec fn part_lines(parts: Seq<LogPart>, name: Seq<char>) -> Seq<Seq<char>>
    decreases parts.len(),
{
    if parts.len() == 0 {
        seq![]
    } else if parts.last().name@ == name {
        parts.last().lines@.map_values(|l: String| l@)
    } else {
        part_lines(parts.drop_last(), name)
    }
}

/// Position of the session with id `id`.
pub open spec fn session_index(sessions: Seq<LogSession>, id: Seq<char>) -> Option<int>
    decreases sessions.len(),
{
    if sessions.len() == 0 {
        None
    } else if sessions.last().id@ == id {
        Some(sessions.len() - 1)
    } else {
        session_index(sessions.drop_last(), id)
    }
}

proof fn lemma_session_index(sessions: Seq<LogSession>, id: Seq<char>)
    ensures
        session_index(sessions, id) matches Some(i) ==> 0 <= i < sessions.len() && sessions[i].id@ == id
            && forall|j: int| i < j < sessions.len() ==> sessions[j].id@ != id,
        session_index(sessions, id) is None ==> forall|k: int| 0 <= k < sessions.len() ==> sessions[k].id@ != id,
    decreases sessions.len(),
{
    if sessions.len() > 0 {
        lemma_session_index(sessions.drop_last(), id);
        if let Some(i) = session_index(sessions, id) {
            assert forall|j: int| i < j < sessions.len() implies sessions[j].id@ != id by {
                if j < sessions.len() - 1 {
                    assert(sessions.drop_last()[j] == sessions[j]);
                }
            }
        }
        if session_index(sessions, id) is None {
            assert forall|k: int| 0 <= k < sessions.len() implies sessions[k].id@ != id by {
                if k < sessions.len() - 1 {
                    assert(sessions.drop_last()[k] == sessions[k]);
                }
            }
        }
    }
}

proof fn lemma_last_match(sessions: Seq<LogSession>, id: Seq<char>, k: int)
    requires
        0 <= k < sessions.len(),
        sessions[k].id@ == id,
        forall|j: int| k < j < sessions.len() ==> sessions[j].id@ != id,
    ensures
        session_index(sessions, id) == Some(k),
    decreases sessions.len(),
{
    if k < sessions.len() - 1 {
        assert forall|j: int| k < j < sessions.drop_last().len() implies sessions.drop_last()[j].id@ != id by {
            assert(sessions.drop_last()[j] == sessions[j]);
        }
        lemma_last_match(sessions.drop_last(), id, k);
    }
}

fn find_session(sessions: &Vec<LogSession>, id: &str) -> (r: Option<usize>)
    ensures
        r matches Some(k) ==> session_index(sessions@, id@) == Some(k as int),
        r is None ==> session_index(sessions@, id@) is None,
{
    let mut i: usize = sessions.len();
    assert(sessions@.subrange(0, i as int) == sessions@);
    while i > 0
        invariant
            i <= sessions@.len(),
            session_index(sessions@, id@) == session_index(sessions@.subrange(0, i as int), id@),
        decreases i,
    {
        assert(sessions@.subrange(0, i as int).drop_last() == sessions@.subrange(0, i - 1));
        if str_eq(sessions[i - 1].id.as_str(), id) {
            return Some(i - 1);
        }
        i = i - 1;
    }
    None
}

fn copy_lines(v: &Vec<String>) -> (r: Vec<String>)
    ensures
        r@.map_values(|l: String| l@) == v@.map_values(|l: String| l@),
{
    let mut r: Vec<String> = Vec::new();
    let mut i: usize = 0;
    while i < v.len()
        invariant
            i <= v@.len(),
            r@.map_values(|l: String| l@) == v@.subrange(0, i as int).map_values(|l: String| l@),
        decreases v@.len() - i,
    {
        let ghost b = r@;
        r.push(v[i].clone());
        assert(r@.map_values(|l: String| l@) =~= b.map_values(|l: String| l@).push(v@[i as int]@));
        i = i + 1;
        assert(v@.subrange(0, i as int).map_values(|l: String| l@) =~= v@.subrange(0, i - 1).map_values(
            |l: String| l@,
        ).push(v@[i - 1]@));
    }
    assert(v@.subrange(0, v@.len() as int) == v@);
    r
}

fn lines_of(parts: &Vec<LogPart>, name: &str) -> (r: Vec<String>)
    ensures
        r@.map_values(|l: String| l@) == part_lines(parts@, name@),
{
    let mut i: usize = parts.len();
    assert(parts@.subrange(0, i as int) == parts@);
    while i > 0
        invariant
            i <= parts@.len(),
            part_lines(parts@, name@) == part_lines(parts@.subrange(0, i as int), name@),
        decreases i,
    {
        assert(parts@.subrange(0, i as int).drop_last() == parts@.subrange(0, i - 1));
        if str_eq(parts[i - 1].name.as_str(), name) {
            return copy_lines(&parts[i - 1].lines);
        }
        i = i - 1;
    }
    Vec::new()
}

/// The line that a message adds to its part: its time, two spaces, and its cleaned text.
pub open spec fn log_line(m: Log) -> Seq<char> {
    m.time@ + "  "@ + cleaned(m.message@)
}

/// Records `message` in the log: a message without a session is dropped; otherwise its
/// session's part for the message's chapter gains the message's line (after the lines
/// it had), and the session is rewritten as running, with the kind its id gives, its
/// old start time (or `now` when it is new) and, for a download session, the manga
/// `manga`.
pub fn record_message(sessions: &mut Vec<LogSession>, message: &Log, now: &str, manga: &(
    String,
    String,
    String,
))
    ensures
        message.handle_id@.len() == 0 ==> final(sessions)@ == old(sessions)@,
        message.handle_id@.len() > 0 ==> ({
            let i = session_index(final(sessions)@, message.handle_id@);
            &&& i is Some
            &&& final(sessions)@[i->0].kind@ == session_kind_spec(message.handle_id@)
            &&& final(sessions)@[i->0].time_end is None
            &&& final(sessions)@[i->0].time_start@ == match session_index(old(sessions)@, message.handle_id@) {
                Some(k) => old(sessions)@[k].time_start@,
                None => now@,
            }
            &&& part_lines(final(sessions)@[i->0].parts@, message.name@) == match session_index(
                old(sessions)@,
                message.handle_id@,
            ) {
                Some(k) => part_lines(old(sessions)@[k].parts@, message.name@),
                None => seq![],
            }.push(log_line(*message))
            &&& (session_kind_spec(message.handle_id@) == "downloader"@) == (final(sessions)@[i->0].manga is Some)
        }),
        forall|k: int|
            0 <= k < old(sessions)@.len() && (#[trigger] old(sessions)@[k]).id@ != message.handle_id@
                ==> final(sessions)@[k] == old(sessions)@[k],
{
    if message.handle_id.as_str().unicode_len() == 0 {
        return;
    }
    let id = message.handle_id.as_str();
    let mut line = message.time.clone();
    line.append("  ");
    line.append(clean_message(message.message.as_str()).as_str());
    let kind = session_kind(id);
    let is_download = str_eq(kind.as_str(), "downloader");
    proof {
        reveal_strlit("downloader");
    }
    let found = find_session(sessions, id);
    proof {
        lemma_session_index(sessions@, id@);
    }
    match found {
        Some(k) => {
            let ghost before = sessions@;
            assert(before[k as int].id@ == id@);
            let mut session = sessions.remove(k);
            assert(session == before[k as int]);
            let mut lines = lines_of(&session.parts, message.name.as_str());
            let ghost old_lines = lines@;
            lines.push(line);
            assert(lines@.map_values(|l: String| l@) =~= old_lines.map_values(|l: String| l@).push(
                log_line(*message),
            ));
            session.parts.push(LogPart { name: message.name.clone(), lines });
            assert(session.parts@.last().name@ == message.name@);
            session.kind = kind;
            session.time_end = None;
            session.manga = if is_download {
                Some((manga.0.clone(), manga.1.clone(), manga.2.clone()))
            } else {
                None
            };
            let ghost sid = session.id;
            assert(sid@ == id@);
            sessions.insert(k, session);
            assert(sessions@[k as int].id == sid);
            proof {
                lemma_session_index(sessions@, id@);
                assert(sessions@[k as int].id@ == id@);
                assert forall|j: int| k < j < sessions@.len() implies sessions@[j].id@ != id@ by {
                    assert(sessions@[j] == before[j]);
                };
                lemma_last_match(sessions@, id@, k as int);
            }
        },
        None => {
            let mut lines: Vec<String> = Vec::new();
            lines.push(line);
            assert(lines@.map_values(|l: String| l@) =~= seq![log_line(*message)]);
            let mut parts: Vec<LogPart> = Vec::new();
            parts.push(LogPart { name: message.name.clone(), lines });
            sessions.push(
                LogSession {
                    id: String::from_str(id),
                    parts,
                    kind,
                    time_start: String::from_str(now),
                    time_end: None,
                    manga: if is_download {
                        Some((manga.0.clone(), manga.1.clone(), manga.2.clone()))
                    } else {
                        None
                    },
                },
            );
            proof {
                assert(sessions@.drop_last() == old(sessions)@);
                assert(part_lines(sessions@.last().parts@, message.name@) == seq![log_line(*message)]);
            }
        },
    }
}

/// Whether `id` is listed among the finished sessions.
pub open spec fn ended_id(ended: Seq<String>, id: Seq<char>) -> bool {
    id.len() > 0 && exists|j: int| 0 <= j < ended.len() && (#[trigger] ended[j])@ == id
}

/// A session after [`close_sessions`].
pub open spec fn closed(s: LogSession, ended: Seq<String>, now: Seq<char>, after: LogSession) -> bool {
    &&& after.id == s.id
    &&& after.parts == s.parts
    &&& after.kind == s.kind
    &&& after.time_start == s.time_start
    &&& after.manga == s.manga
    &&& if ended_id(ended, s.id@) {
        after.time_end matches Some(t) && t@ == now
    } else {
        after.time_end == s.time_end
    }
}

fn is_ended(ended: &Vec<String>, id: &str) -> (r: bool)
    ensures
        r == ended_id(ended@, id@),
{
    if id.unicode_len() == 0 {
        return false;
    }
    let mut j: usize = 0;
    while j < ended.len()
        invariant
            j <= ended@.len(),
            id@.len() > 0,
            forall|k: int| 0 <= k < j ==> (#[trigger] ended@[k])@ != id@,
        decreases ended@.len() - j,
    {
        if str_eq(ended[j].as_str(), id) {
            return true;
        }
        j = j + 1;
    }
    false
}

/// Marks the sessions whose ids are listed in `ended` as finished at `now`.
pub fn close_sessions(sessions: &mut Vec<LogSession>, ended: &Vec<String>, now: &str)
    ensures
        final(sessions)@.len() == old(sessions)@.len(),
        forall|k: int|
            0 <= k < old(sessions)@.len() ==> closed(#[trigger] old(sessions)@[k], ended@, now@, final(sessions)@[k]),
{
    let ghost whole = sessions@;
    let n = sessions.len();
    let mut rest: Vec<LogSession> = Vec::new();
    std::mem::swap(sessions, &mut rest);
    let mut k: usize = 0;
    while rest.len() > 0
        invariant
            k + rest@.len() == whole.len(),
            whole.len() == n,
            rest@ == whole.subrange(k as int, whole.len() as int),
            sessions@.len() == k,
            forall|j: int| 0 <= j < k ==> closed(#[trigger] whole[j], ended@, now@, sessions@[j]),
        decreases rest@.len(),
    {
        let mut s = rest.remove(0);
        assert(s == whole[k as int]);
        if is_ended(ended, s.id.as_str()) {
            s.time_end = Some(String::from_str(now));
        }
        sessions.push(s);
        k = k + 1;
        assert(rest@ == whole.subrange(k as int, whole.len() as int));
    }
}

/// `std::num::ParseIntError`, carried through unchanged.
#[verifier::external_type_specification]
#[verifier::external_body]
pub struct ExParseIntError(std::num::ParseIntError);

/// `str::parse::<usize>`: succeeds exactly on an optional `+` followed by decimal digits
/// whose value fits in `usize`, with that value.
#[verifier::external_body]
fn parse_usize(s: &str) -> (r: Result<usize, std::num::ParseIntError>)
    ensures
        match r {
            Ok(v) => parse_unsigned(s@, usize::MAX as nat) == Some(v as nat),
            Err(_) => parse_unsigned(s@, usize::MAX as nat) is None,
        },
{
    s.parse::<usize>()
}

/// The `Display` text of a `ParseIntError`.
#[verifier::external_body]
fn parse_error_text(e: &std::num::ParseIntError) -> String {
    e.to_string()
}

/// Reads the number a user typed to pick one of `len` entries: a number that does not
/// parse is a `ConversionError` with the parser's message, one that is not below `len`
/// a `ConversionError` reading `code` (both with code 0).
pub fn select_index(input: &str, len: usize) -> (r: Result<usize, MdownError>)
    ensures
        match parse_unsigned(input@, usize::MAX as nat) {
            Some(v) => if v < len {
                r == Ok::<usize, MdownError>(v as usize)
            } else {
                r matches Err(MdownError::ConversionError(m, c)) && m@ == "code"@ && c == 0
            },
            None => r matches Err(MdownError::ConversionError(_, c)) && c == 0,
        },
{
    match parse_usize(input) {
        Ok(v) => if v < len {
            Ok(v)
        } else {
            Err(MdownError::ConversionError(String::from_str("code"), 0))
        },
        Err(e) => Err(MdownError::ConversionError(parse_error_text(&e), 0)),
    }
}

/// The order of `String`s: by their characters, compared as code points, a prefix first
/// (the order of their UTF-8 bytes).
pub open spec fn text_le(a: Seq<char>, b: Seq<char>) -> bool
    decreases a.len(),
{
    if a.len() == 0 {
        true
    } else if b.len() == 0 {
        false
    } else if a[0] != b[0] {
        (a[0] as u32) < (b[0] as u32)
    } else {
        text_le(a.drop_first(), b.drop_first())
    }
}

fn text_le_exec(a: &str, b: &str) -> (r: bool)
    ensures
        r == text_le(a@, b@),
{
    let x = str_chars(a);
    let y = str_chars(b);
    let mut i: usize = 0;
    assert(x@.subrange(0, x@.len() as int) == x@);
    assert(y@.subrange(0, y@.len() as int) == y@);
    while i < x.len() && i < y.len() && x[i] == y[i]
        invariant
            i <= x@.len(),
            i <= y@.len(),
            text_le(x@, y@) == text_le(x@.subrange(i as int, x@.len() as int), y@.subrange(i as int, y@.len() as int)),
        decreases x@.len() - i,
    {
        assert(x@.subrange(i as int, x@.len() as int).drop_first() == x@.subrange(i + 1, x@.len() as int));
        assert(y@.subrange(i as int, y@.len() as int).drop_first() == y@.subrange(i + 1, y@.len() as int));
        i = i + 1;
    }
    if i == x.len() {
        true
    } else if i == y.len() {
        false
    } else {
        (x[i] as u32) < (y[i] as u32)
    }
}

/// The texts inserted one by one, each after those that are not greater: the stable
/// sort of `slice::sort` on `String`s.
pub open spec fn sorted_texts(s: Seq<Seq<char>>) -> Seq<Seq<char>>
    decreases s.len(),
{
    if s.len() == 0 {
        s
    } else {
        insert_text(sorted_texts(s.drop_last()), s.last())
    }
}

/// `x` inserted after every element of `sorted` that is not greater than it.
pub open spec fn insert_text(sorted: Seq<Seq<char>>, x: Seq<char>) -> Seq<Seq<char>>
    decreases sorted.len(),
{
    if sorted.len() == 0 {
        seq![x]
    } else if text_le(sorted.last(), x) {
        sorted.push(x)
    } else {
        insert_text(sorted.drop_last(), x).push(sorted.last())
    }
}

fn insert_text_vec(sorted: Vec<String>, x: String) -> (r: Vec<String>)
    ensures
        r@.map_values(|t: String| t@) == insert_text(sorted@.map_values(|t: String| t@), x@),
    decreases sorted@.len(),
{
    let mut sorted = sorted;
    let ghost whole = sorted@.map_values(|t: String| t@);
    if sorted.len() == 0 {
        let mut r: Vec<String> = Vec::new();
        r.push(x);
        assert(r@.map_values(|t: String| t@) =~= seq![x@]);
        return r;
    }
    let last = sorted.pop().unwrap();
    assert(whole.drop_last() =~= sorted@.map_values(|t: String| t@));
    assert(whole.last() == last@);
    if text_le_exec(last.as_str(), x.as_str()) {
        sorted.push(last);
        let ghost mid = sorted@;
        sorted.push(x);
        assert(sorted@.map_values(|t: String| t@) =~= whole.push(x@));
        sorted
    } else {
        let mut r = insert_text_vec(sorted, x);
        let ghost mid = r@;
        r.push(last);
        assert(r@.map_values(|t: String| t@) =~= mid.map_values(|t: String| t@).push(last@));
        r
    }
}

/// Sorts texts as `slice::sort` does (see [`sorted_texts`]).
pub fn sort_texts(v: Vec<String>) -> (r: Vec<String>)
    ensures
        r@.map_values(|t: String| t@) == sorted_texts(v@.map_values(|t: String| t@)),
{
    let ghost all = v@.map_values(|t: String| t@);
    let mut rest = v;
    let mut r: Vec<String> = Vec::new();
    let n = rest.len();
    let mut i: usize = 0;
    while rest.len() > 0
        invariant
            i + rest@.len() == n,
            n == all.len(),
            rest@.map_values(|t: String| t@) == all.subrange(i as int, n as int),
            r@.map_values(|t: String| t@) == sorted_texts(all.subrange(0, i as int)),
        decreases rest@.len(),
    {
        let ghost before_rest = rest@;
        let x = rest.remove(0);
        assert(before_rest.map_values(|t: String| t@)[0] == before_rest[0]@);
        assert(all.subrange(i as int, n as int)[0] == all[i as int]);
        assert(x@ == all[i as int]);
        assert(all.subrange(0, i + 1).drop_last() == all.subrange(0, i as int));
        r = insert_text_vec(r, x);
        i = i + 1;
        assert(rest@ == before_rest.subrange(1, before_rest.len() as int));
        assert forall|j: int| 0 <= j < rest@.len() implies rest@.map_values(|t: String| t@)[j] == all.subrange(
            i as int,
            n as int,
        )[j] by {
            assert(rest@[j] == before_rest[j + 1]);
            assert(before_rest.map_values(|t: String| t@)[j + 1] == before_rest[j + 1]@);
        }
        assert(rest@.map_values(|t: String| t@) =~= all.subrange(i as int, n as int));
    }
    assert(all.subrange(0, n as int) == all);
    r
}

/// How the user answers a pause in a long listing.
#[derive(Debug, Clone, Copy)]
pub enum PageKey {
    /// Enter: two more lines.
    Enter,
    /// Space: fifty more lines.
    Space,
    /// Any other key: nothing more.
    Other,
}

/// Whether the listing pauses before line `times`: a hundred lines after `shown`.
pub fn pauses_at(times: usize, shown: usize) -> (r: bool)
    ensures
        r == (times >= shown + 100),
{
    times >= shown && times - shown >= 100
}

/// The count of lines shown after the user answered a pause with `key`.
pub fn after_pause(shown: usize, key: PageKey) -> (r: usize)
    requires
        shown + 50 <= usize::MAX,
    ensures
        r == match key {
            PageKey::Enter => shown + 2,
            PageKey::Space => shown + 50,
            PageKey::Other => shown as int,
        },
{
    match key {
        PageKey::Enter => shown + 2,
        PageKey::Space => shown + 50,
        PageKey::Other => shown,
    }
}

/// The label of a part of a session's log: its chapter, or `General` for the part
/// without one.
pub fn part_label(name: &str) -> (r: String)
    ensures
        r@ == (if name@.len() == 0 { "General"@ } else { name@ }),
{
    if name.unicode_len() == 0 {
        String::from_str("General")
    } else {
        String::from_str(name)
    }
}

/// The part that a label names: the one without a chapter for `General`.
pub fn part_of_label(label: &str) -> (r: String)
    ensures
        r@ == (if label@ == "General"@ { seq![] } else { label@ }),
{
    if str_eq(label, "General") {
        String::new()
    } else {
        String::from_str(label)
    }
}

} // verus!
