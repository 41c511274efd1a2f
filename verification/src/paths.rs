//! Where the program keeps its files, next to its executable, and small pieces of the
//! terminal and web front ends.

use vstd::prelude::*;
use vstd::string::*;
use vstd::utf8::encode_utf8;

verus! {

fn joined_path(dir: &str, name: &str) -> (r: String)
    ensures
        r@ == dir@ + name@,
{
    let mut s = String::from_str(dir);
    s.append(name);
    s
}

/// The backup folder: `<dir>\backup`, where `dir` holds the executable.
pub fn get_bac_path(dir: &str) -> (r: String)
    ensures
        r@ == dir@ + "\\backup"@,
{
    joined_path(dir, "\\backup")
}

/// The database of downloaded manga: `<dir>\dat.json`.
pub fn get_dat_path(dir: &str) -> (r: String)
    ensures
        r@ == dir@ + "\\dat.json"@,
{
    joined_path(dir, "\\dat.json")
}

/// The settings and resources database: `<dir>\resources.db`.
pub fn get_db_path(dir: &str) -> (r: String)
    ensures
        r@ == dir@ + "\\resources.db"@,
{
    joined_path(dir, "\\resources.db")
}

/// The log: `<dir>\log.json`.
pub fn get_log_path(dir: &str) -> (r: String)
    ensures
        r@ == dir@ + "\\log.json"@,
{
    joined_path(dir, "\\log.json")
}

/// The lock of the log: `<dir>\log.lock`.
pub fn get_log_lock_path(dir: &str) -> (r: String)
    ensures
        r@ == dir@ + "\\log.lock"@,
{
    joined_path(dir, "\\log.lock")
}

/// Records that the session `handle_id` has ended.
pub fn log_end(ended: &mut Vec<String>, handle_id: String)
    ensures
        final(ended)@ == old(ended)@.push(handle_id),
{
    ended.push(handle_id);
}

/// A line of the scrolling history, as drawn: padded with spaces to the screen width
/// (in bytes) when it is shorter.
pub open spec fn padded(line: Seq<char>, width: nat) -> Seq<char> {
    let n = encode_utf8(line).len();
    if n < width {
        line + Seq::new((width - n) as nat, |i: int| ' ')
    } else {
        line
    }
}

/// The scrolling history after one more message: when the window (from row `start` to
/// `end` rows above the bottom of a screen of `max_y` rows) is full, the oldest line
/// leaves; else the window grows by one line.
pub open spec fn moved_history(moves: u32, hist: Seq<String>, start: u32, end: u32, max_y: u32) -> (
    nat,
    Seq<String>,
) {
    if moves + start >= max_y - end {
        (moves as nat, hist.drop_first())
    } else {
        ((moves + 1) as nat, hist)
    }
}

/// Scrolls the message history shown from row `start` and returns the new window size
/// with the rows to draw: row `start + i` shows the `i`-th line, [`padded`] to the width.
pub fn resolve_move(moves: u32, hist: &mut Vec<String>, start: u32, end: u32, max_y: u32, max_x: u32) -> (r: (
    u32,
    Vec<(u32, String)>,
))
    requires
        end <= max_y,
        moves + start <= u32::MAX,
        moves + start >= max_y - end ==> old(hist)@.len() > 0,
        moves + start < max_y - end ==> moves + start + 1 <= u32::MAX,
    ensures
        ({
            let (m, h) = moved_history(moves, old(hist)@, start, end, max_y);
            &&& r.0 == m
            &&& final(hist)@ == h
            &&& r.1@.len() == if h.len() < m { h.len() } else { m }
            &&& forall|i: int|
                0 <= i < r.1@.len() ==> (#[trigger] r.1@[i]).0 == start + i && r.1@[i].1@ == padded(
                    h[i]@,
                    max_x as nat,
                )
        }),
{
    let mut moves = moves;
    if moves + start >= max_y - end {
        hist.remove(0);
    } else {
        moves = moves + 1;
    }
    let count: u32 = if (hist.len() as u64) < (moves as u64) { hist.len() as u32 } else { moves };
    let mut rows: Vec<(u32, String)> = Vec::new();
    let mut i: u32 = 0;
    while i < count
        invariant
            i <= count <= moves,
            count <= hist@.len(),
            moves + start <= u32::MAX,
            rows@.len() == i,
            forall|k: int|
                0 <= k < i ==> (#[trigger] rows@[k]).0 == start + k && rows@[k].1@ == padded(
                    hist@[k]@,
                    max_x as nat,
                ),
        decreases count - i,
    {
        let message = &hist[i as usize];
        let length = message.as_str().as_bytes().len();
        let text = if length < (max_x as usize) {
            let mut t = message.clone();
            let mut k: usize = length;
            let ghost base = t@;
            while k < max_x as usize
                invariant
                    length <= k <= max_x,
                    t@ == base + Seq::new((k - length) as nat, |j: int| ' '),
                decreases max_x - k,
            {
                t.append(" ");
                proof {
                    reveal_strlit(" ");
                }
                k = k + 1;
                assert(t@ =~= base + Seq::new((k - length) as nat, |j: int| ' '));
            }
            t
        } else {
            message.clone()
        };
        rows.push((start + i, text));
        i = i + 1;
    }
    (moves, rows)
}

/// The page the web interface answers with when no page matches.
pub open spec fn error_page() -> Seq<char> {
    "<!DOCTYPE html><html lang=\"en\"><head><meta charset=\"UTF-8\"><meta name=\"viewport\" content=\"width=device-width, initial-scale=1.0\"><title>404 Error - Page Not Found</title><style>body {font-family: Arial, sans-serif;background-color: #f7f7f7;color: #333;margin: 0;padding: 0;text-align: center;}.container {position: absolute;top: 50%;left: 50%;transform: translate(-50%, -50%);}h1 {font-size: 36px;margin-bottom: 20px;}p {font-size: 18px;margin-bottom: 20px;}a {color: #007bff;text-decoration: none;}a:hover {text-decoration: underline;}</style></head><body><div class=\"container\"><h1>404 Error - Page Not Found</h1><p>The page you are looking for might have been removed, had its name changed, or is temporarily unavailable.</p><p>Go back to <a href=\"/\">home page</a>.</p></div></body></html>"@
}

/// The "404 Error - Page Not Found" page of the web interface.
pub fn get_error_html() -> (r: String)
    ensures
        r@ == error_page(),
{
    String::from_str(
        "<!DOCTYPE html><html lang=\"en\"><head><meta charset=\"UTF-8\"><meta name=\"viewport\" content=\"width=device-width, initial-scale=1.0\"><title>404 Error - Page Not Found</title><style>body {font-family: Arial, sans-serif;background-color: #f7f7f7;color: #333;margin: 0;padding: 0;text-align: center;}.container {position: absolute;top: 50%;left: 50%;transform: translate(-50%, -50%);}h1 {font-size: 36px;margin-bottom: 20px;}p {font-size: 18px;margin-bottom: 20px;}a {color: #007bff;text-decoration: none;}a:hover {text-decoration: underline;}</style></head><body><div class=\"container\"><h1>404 Error - Page Not Found</h1><p>The page you are looking for might have been removed, had its name changed, or is temporarily unavailable.</p><p>Go back to <a href=\"/\">home page</a>.</p></div></body></html>",
    )
}

/// Whether a download folder counts as empty: it holds at most one entry, or the marker
/// that the run ended (a name ending with `mdown_final_end.lock`).
pub fn is_directory_empty(names: &Vec<String>) -> (r: bool)
    ensures
        r == (names@.len() <= 1 || exists|i: int|
            0 <= i < names@.len() && crate::version::ends_with(
                (#[trigger] names@[i])@,
                "mdown_final_end.lock"@,
            )),
{
    let mut i: usize = 0;
    while i < names.len()
        invariant
            i <= names@.len(),
            forall|k: int| 0 <= k < i ==> !crate::version::ends_with((#[trigger] names@[k])@, "mdown_final_end.lock"@),
        decreases names@.len() - i,
    {
        if crate::version::ends_with_exec(names[i].as_str(), "mdown_final_end.lock") {
            return true;
        }
        i = i + 1;
    }
    names.len() <= 1
}

/// Whether a file is one the program keeps beside the chapters of a manga: its cover,
/// description, scanlation groups or statistics.
pub open spec fn is_service_file(name: Seq<char>) -> bool {
    crate::version::ends_with(name, "_cover.png"@) || crate::version::ends_with(name, "_description.txt"@)
        || crate::version::ends_with(name, "_scanlation_groups.txt"@) || crate::version::ends_with(
        name,
        "_statistics.md"@,
    )
}

/// Whether a manga folder holds nothing but service files, so that a run that downloaded
/// nothing removes it.
pub fn only_service_files(names: &Vec<String>) -> (r: bool)
    ensures
        r == forall|i: int| 0 <= i < names@.len() ==> is_service_file((#[trigger] names@[i])@),
{
    let mut i: usize = 0;
    while i < names.len()
        invariant
            i <= names@.len(),
            forall|k: int| 0 <= k < i ==> is_service_file((#[trigger] names@[k])@),
        decreases names@.len() - i,
    {
        let n = names[i].as_str();
        if !(crate::version::ends_with_exec(n, "_cover.png") || crate::version::ends_with_exec(n, "_description.txt")
            || crate::version::ends_with_exec(n, "_scanlation_groups.txt") || crate::version::ends_with_exec(
            n,
            "_statistics.md",
        )) {
            return false;
        }
        i = i + 1;
    }
    true
}

} // verus!
