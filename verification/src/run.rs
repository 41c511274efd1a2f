//! What a run of the program does, decided from its options.

use vstd::prelude::*;
use vstd::string::*;
use crate::args::{Args, Commands};
use crate::text::{str_chars, parse_unsigned_chars, is_ws, char_is_ws, parse_unsigned};

verus! {

/// The options that choose what a run does.
#[derive(Debug, Clone, Copy)]
pub struct RunFlags {
    pub web: bool,
    pub gui: bool,
    pub server: bool,
    pub check: bool,
    pub update: bool,
    pub quiet: bool,
    pub log: bool,
    pub reset: bool,
    pub delete: bool,
    pub show_log: bool,
    pub show: bool,
    pub show_all: bool,
    /// Whether `--encode` was given a text.
    pub encode: bool,
}

/// The flags of a set of options; `reset` and `delete` come from the `app` subcommand.
pub open spec fn run_flags_spec(a: Args) -> RunFlags {
    RunFlags {
        web: a.web,
        gui: a.gui,
        server: a.server,
        check: a.check,
        update: a.update,
        quiet: a.quiet,
        log: a.log,
        reset: a.subcommands matches Some(Commands::App { reset, .. }) && reset,
        delete: a.subcommands matches Some(Commands::App { delete, .. }) && delete,
        show_log: a.show_log,
        show: a.show is Some,
        show_all: a.show_all is Some,
        encode: a.encode@.len() > 0,
    }
}

/// The flags of `args`.
pub fn run_flags(args: &Args) -> (f: RunFlags)
    ensures
        f == run_flags_spec(*args),
{
    let (reset, delete) = match &args.subcommands {
        Some(Commands::App { reset, delete, .. }) => (*reset, *delete),
        _ => (false, false),
    };
    RunFlags {
        web: args.web,
        gui: args.gui,
        server: args.server,
        check: args.check,
        update: args.update,
        quiet: args.quiet,
        log: args.log,
        reset,
        delete,
        show_log: args.show_log,
        show: args.show.is_some(),
        show_all: args.show_all.is_some(),
        encode: args.encode.as_str().unicode_len() > 0,
    }
}

/// Whether the terminal screen shows progress: in none of the web, gui, check, update
/// or quiet modes.
pub open spec fn screen_spec(f: RunFlags) -> bool {
    !f.web && !f.gui && !f.check && !f.update && !f.quiet
}

/// Whether progress is written on the terminal screen.
pub fn uses_screen(f: &RunFlags) -> (r: bool)
    ensures
        r == screen_spec(*f),
{
    !f.web && !f.gui && !f.check && !f.update && !f.quiet
}

/// Whether the run is a plain download in the terminal: none of the other modes.
pub open spec fn plain_spec(f: RunFlags) -> bool {
    screen_spec(f) && !f.reset && !f.show && !f.show_all && !f.encode && !f.delete && !f.show_log
}

/// Whether the run is a plain download in the terminal.
pub fn plain_run(f: &RunFlags) -> (r: bool)
    ensures
        r == plain_spec(*f),
{
    uses_screen(f) && !f.reset && !f.show && !f.show_all && !f.encode && !f.delete && !f.show_log
}

/// Whether a download run lists what it wrote and tidies up after itself: it is not a
/// web, GUI, check or update run.
pub open spec fn terminal_download_spec(f: RunFlags) -> bool {
    !f.web && !f.gui && !f.check && !f.update
}

/// Whether a download run removes the manga's folder afterwards: a terminal run that
/// downloaded no chapter removes the folder when the run itself created it.
pub fn removes_manga_folder(f: &RunFlags, downloaded: usize, existed_before: bool) -> (r: bool)
    ensures
        r == (terminal_download_spec(*f) && downloaded == 0 && !existed_before),
{
    !f.web && !f.gui && !f.check && !f.update && downloaded == 0 && !existed_before
}

/// Whether "Downloaded manga" goes to the log.
pub fn logs_download(f: &RunFlags) -> (r: bool)
    ensures
        r == (f.web || f.gui || f.check || f.update || f.log),
{
    f.web || f.gui || f.check || f.update || f.log
}

/// What a run does.
#[derive(Debug, Clone, Copy, PartialEq, Eq, Structural)]
pub enum StartMode {
    /// Print the encoded form of a text.
    Encode,
    /// Remove the program's data.
    Reset,
    /// Delete the downloaded data.
    Delete,
    /// Show the logs.
    ShowLog,
    /// Show the database.
    Show,
    /// Check or update the downloaded manga.
    Check,
    /// Serve downloads to other machines.
    Server,
    /// Open the graphical interface.
    Gui,
    /// Serve the web interface.
    Web,
    /// Download the manga that the options name.
    Download,
}

/// The first mode that the options ask for, in this order: encode, reset, delete, show
/// log, show, check or update, server, gui, web; else a download.
pub open spec fn start_mode_spec(f: RunFlags) -> StartMode {
    if f.encode {
        StartMode::Encode
    } else if f.reset {
        StartMode::Reset
    } else if f.delete {
        StartMode::Delete
    } else if f.show_log {
        StartMode::ShowLog
    } else if f.show || f.show_all {
        StartMode::Show
    } else if f.check || f.update {
        StartMode::Check
    } else if f.server {
        StartMode::Server
    } else if f.gui {
        StartMode::Gui
    } else if f.web {
        StartMode::Web
    } else {
        StartMode::Download
    }
}

/// Decides what the run does (see [`start_mode_spec`]).
pub fn start_mode(f: &RunFlags) -> (m: StartMode)
    ensures
        m == start_mode_spec(*f),
{
    if f.encode {
        StartMode::Encode
    } else if f.reset {
        StartMode::Reset
    } else if f.delete {
        StartMode::Delete
    } else if f.show_log {
        StartMode::ShowLog
    } else if f.show || f.show_all {
        StartMode::Show
    } else if f.check || f.update {
        StartMode::Check
    } else if f.server {
        StartMode::Server
    } else if f.gui {
        StartMode::Gui
    } else if f.web {
        StartMode::Web
    } else {
        StartMode::Download
    }
}

/// The first word of `s`: the characters from its first non-space up to the next space.
pub open spec fn first_word(s: Seq<char>) -> Option<Seq<char>>
    decreases s.len(),
{
    if s.len() == 0 {
        None
    } else if is_ws(s[0]) {
        first_word(s.drop_first())
    } else {
        Some(word_at(s))
    }
}

/// The characters of `s` before its first space.
pub open spec fn word_at(s: Seq<char>) -> Seq<char>
    decreases s.len(),
{
    if s.len() == 0 || is_ws(s[0]) {
        seq![]
    } else {
        seq![s[0]] + word_at(s.drop_first())
    }
}

/// The status a failed request reports, read from the start of its message: the first
/// word as a number, 0 when it is none; `None` when the message has no word.
pub open spec fn leading_status_spec(message: Seq<char>) -> Option<nat> {
    match first_word(message) {
        Some(w) => Some(
            match parse_unsigned(w, 0xffff) {
                Some(v) => v,
                None => 0,
            },
        ),
        None => None,
    }
}

/// Reads the status a failed request reports (see [`leading_status_spec`]).
pub fn leading_status(message: &str) -> (r: Option<u16>)
    ensures
        match leading_status_spec(message@) {
            Some(v) => r matches Some(x) && x as nat == v,
            None => r is None,
        },
{
    let cs = str_chars(message);
    let n = cs.len();
    let mut i: usize = 0;
    assert(cs@.subrange(0, n as int) == cs@);
    while i < n && char_is_ws(cs[i])
        invariant
            i <= n,
            n == cs@.len(),
            first_word(cs@) == first_word(cs@.subrange(i as int, n as int)),
        decreases n - i,
    {
        assert(cs@.subrange(i as int, n as int).drop_first() == cs@.subrange(i + 1, n as int));
        i = i + 1;
    }
    if i == n {
        return None;
    }
    let start = i;
    let mut word: Vec<char> = Vec::new();
    while i < n && !char_is_ws(cs[i])
        invariant
            start <= i <= n,
            n == cs@.len(),
            word_at(cs@.subrange(start as int, n as int)) == word@ + word_at(cs@.subrange(i as int, n as int)),
        decreases n - i,
    {
        assert(cs@.subrange(i as int, n as int).drop_first() == cs@.subrange(i + 1, n as int));
        word.push(cs[i]);
        i = i + 1;
        assert(word_at(cs@.subrange(i - 1, n as int)) == seq![cs@[i - 1]] + word_at(cs@.subrange(i as int, n as int)));
        assert(word@ == word@.drop_last().push(cs@[i - 1]));
        assert(word@.drop_last() + seq![cs@[i - 1]] == word@);
    }
    assert(word_at(cs@.subrange(i as int, n as int)) == Seq::<char>::empty());
    assert(word@ + Seq::<char>::empty() == word@);
    match parse_unsigned_chars(word.as_slice(), 0xffff) {
        Some(v) => Some(v as u16),
        None => Some(0),
    }
}

/// The reason phrase that the HTTP standard gives for a status code, if it has one.
pub uninterp spec fn status_reason(code: u16) -> Option<Seq<char>>;

/// `reqwest::StatusCode::from_u16` and `canonical_reason`: the named phrase.
#[verifier::external_body]
fn canonical_reason(code: u16) -> (r: Option<String>)
    ensures
        match r {
            Some(s) => status_reason(code) == Some(s@),
            None => status_reason(code) is None,
        },
{
    match reqwest::StatusCode::from_u16(code) {
        Ok(s) => s.canonical_reason().map(|t| t.to_string()),
        Err(_) => None,
    }
}

/// How a download run ends: the lines shown at the top of the screen and the closing
/// message.
#[derive(Debug, Clone)]
pub struct SessionEnd {
    pub screen: Vec<String>,
    pub message: String,
}

/// The reason phrase as `{:?}` prints it, with a stand-in when there is none.
pub open spec fn quoted_reason(code: u16) -> Seq<char> {
    "\""@ + match status_reason(code) {
        Some(r) => r,
        None => "Didn't find error :/"@,
    } + "\""@
}

/// The status code as `Display` prints it: the number and its reason phrase.
pub open spec fn status_text(code: u16) -> Seq<char> {
    crate::text::dec(code as nat) + " "@ + match status_reason(code) {
        Some(r) => r,
        None => "<unknown status code>"@,
    }
}

/// The end of a download run, from the status of the manga request and the manga's name
/// (`!` when none was found): a client error means a wrong id, a server error a failure
/// of MangaDex; otherwise the manga was downloaded unless it was not found.
pub open spec fn session_end_spec(code: u16, name: Seq<char>) -> (Seq<Seq<char>>, Seq<char>) {
    if 400 <= code < 500 {
        (
            seq!["Id was not found, please recheck the id and try again"@],
            "Ending session: "@ + name + " has NOT been downloaded, because: "@ + quoted_reason(code),
        )
    } else if 500 <= code < 600 {
        (
            seq!["Server error: "@ + status_text(code) + ": "@ + quoted_reason(code)],
            "Ending session: "@ + name + " has NOT been downloaded"@,
        )
    } else if name == "!"@ {
        (
            seq![
                "Either --url or --search was not specified or website is not in pattern of UUID | https://mangadex.org/title/[UUID]/ or UUID is not valid"@,
                "See readme.md for more information"@,
                "Or use --help"@,
            ],
            "Ending session: "@ + name + " has NOT been downloaded, because it was not found"@,
        )
    } else {
        (seq![], "Ending session: "@ + name + " has been downloaded"@)
    }
}

fn quote_reason(reason: &Option<String>) -> (r: String)
    ensures
        r@ == "\""@ + match reason {
            Some(t) => t@,
            None => "Didn't find error :/"@,
        } + "\""@,
{
    let mut s = String::from_str("\"");
    match reason {
        Some(t) => s.append(t.as_str()),
        None => s.append("Didn't find error :/"),
    }
    s.append("\"");
    s
}

/// Decides how a download run ends (see [`session_end_spec`]).
pub fn end_of_session(code: u16, manga_name: &str) -> (r: SessionEnd)
    ensures
        r.screen@.map_values(|l: String| l@) == session_end_spec(code, manga_name@).0,
        r.message@ == session_end_spec(code, manga_name@).1,
{
    proof {
        reveal_strlit("!");
    }
    let mut screen: Vec<String> = Vec::new();
    if 400 <= code && code < 500 {
        let reason = canonical_reason(code);
        screen.push(String::from_str("Id was not found, please recheck the id and try again"));
        let mut message = String::from_str("Ending session: ");
        message.append(manga_name);
        message.append(" has NOT been downloaded, because: ");
        message.append(quote_reason(&reason).as_str());
        assert(screen@.map_values(|l: String| l@) =~= session_end_spec(code, manga_name@).0);
        SessionEnd { screen, message }
    } else if 500 <= code && code < 600 {
        let reason = canonical_reason(code);
        let mut line = String::from_str("Server error: ");
        crate::text::push_dec(&mut line, code as u64);
        line.append(" ");
        match &reason {
            Some(t) => line.append(t.as_str()),
            None => line.append("<unknown status code>"),
        }
        assert(line@ == "Server error: "@ + status_text(code));
        line.append(": ");
        let q = quote_reason(&reason);
        assert(q@ == quoted_reason(code));
        line.append(q.as_str());
        assert(line@ == "Server error: "@ + status_text(code) + ": "@ + quoted_reason(code));
        screen.push(line);
        let mut message = String::from_str("Ending session: ");
        message.append(manga_name);
        message.append(" has NOT been downloaded");
        assert(screen@.map_values(|l: String| l@) =~= session_end_spec(code, manga_name@).0);
        SessionEnd { screen, message }
    } else if crate::text::str_eq(manga_name, "!") {
        screen.push(String::from_str(
            "Either --url or --search was not specified or website is not in pattern of UUID | https://mangadex.org/title/[UUID]/ or UUID is not valid",
        ));
        screen.push(String::from_str("See readme.md for more information"));
        screen.push(String::from_str("Or use --help"));
        let mut message = String::from_str("Ending session: ");
        message.append(manga_name);
        message.append(" has NOT been downloaded, because it was not found");
        assert(screen@.map_values(|l: String| l@) =~= session_end_spec(code, manga_name@).0);
        SessionEnd { screen, message }
    } else {
        let mut message = String::from_str("Ending session: ");
        message.append(manga_name);
        message.append(" has been downloaded");
        assert(screen@.map_values(|l: String| l@) =~= session_end_spec(code, manga_name@).0);
        SessionEnd { screen, message }
    }
}

} // verus!
