//! The error type of the program, with its codes and messages.

use vstd::prelude::*;
use vstd::string::*;
use crate::text::{dec, push_dec};

verus! {

/// `std::io::Error`, carried through unchanged.
#[verifier::external_type_specification]
#[verifier::external_body]
pub struct ExIoError(std::io::Error);

/// `reqwest::StatusCode`, carried through unchanged.
#[verifier::external_type_specification]
#[verifier::external_body]
pub struct ExStatusCode(reqwest::StatusCode);

/// `reqwest::Error`, carried through unchanged.
#[verifier::external_type_specification]
#[verifier::external_body]
pub struct ExReqwestError(reqwest::Error);

/// `regex::Error`, carried through unchanged.
#[verifier::external_type_specification]
#[verifier::external_body]
pub struct ExRegexError(regex::Error);

/// `zip::result::ZipError`, carried through unchanged.
#[verifier::external_type_specification]
#[verifier::external_body]
pub struct ExZipError(zip::result::ZipError);

/// `rusqlite::Error`, carried through unchanged.
#[verifier::external_type_specification]
#[verifier::external_body]
pub struct ExSqlError(rusqlite::Error);

/// Everything that can go wrong, each with the code that identifies where.
#[derive(Debug)]
pub enum MdownError {
    /// A file-system failure and the path it concerns.
    IoError(std::io::Error, String, u32),
    /// An HTTP answer with an unexpected status.
    StatusError(reqwest::StatusCode, u32),
    /// A request that failed.
    NetworkError(reqwest::Error, u32),
    /// A pattern that did not compile.
    RegexError(regex::Error, u32),
    /// A JSON document that did not parse or serialise.
    JsonError(String, u32),
    /// A value that could not be converted.
    ConversionError(String, u32),
    /// Something that was looked for and not found.
    NotFoundError(String, u32),
    /// A damaged or unreadable archive.
    ZipError(zip::result::ZipError, u32),
    /// A failure of the settings database.
    DatabaseError(rusqlite::Error, u32),
    /// Any other failure: its message and its kind.
    CustomError(String, String, u32),
}

/// The code that an error carries.
pub open spec fn code_of(e: MdownError) -> u32 {
    match e {
        MdownError::IoError(_, _, c) => c,
        MdownError::StatusError(_, c) => c,
        MdownError::NetworkError(_, c) => c,
        MdownError::RegexError(_, c) => c,
        MdownError::JsonError(_, c) => c,
        MdownError::ConversionError(_, c) => c,
        MdownError::NotFoundError(_, c) => c,
        MdownError::ZipError(_, c) => c,
        MdownError::DatabaseError(_, c) => c,
        MdownError::CustomError(_, _, c) => c,
    }
}

/// The message of an error whose text is held in the error itself, `None` for those
/// that wrap an error of another library.
pub open spec fn text_message(e: MdownError) -> Option<Seq<char>> {
    match e {
        MdownError::JsonError(m, c) => Some(m@ + " Code: "@ + dec(c as nat)),
        MdownError::ConversionError(m, c) => Some(m@ + " Code: "@ + dec(c as nat)),
        MdownError::NotFoundError(m, c) => Some(m@ + " Code: "@ + dec(c as nat)),
        MdownError::CustomError(m, name, c) => Some(
            "Error: "@ + name@ + " "@ + m@ + " Code "@ + dec(c as nat),
        ),
        _ => None,
    }
}

/// The `Display` text of a `std::io::Error`.
#[verifier::external_body]
fn io_error_text(e: &std::io::Error) -> String {
    e.to_string()
}

/// The `Display` text of a `reqwest::StatusCode`.
#[verifier::external_body]
fn status_text(s: &reqwest::StatusCode) -> String {
    s.to_string()
}

/// The `Display` text of a `reqwest::Error`.
#[verifier::external_body]
fn reqwest_error_text(e: &reqwest::Error) -> String {
    e.to_string()
}

/// The `Display` text of a `regex::Error`.
#[verifier::external_body]
fn regex_error_text(e: &regex::Error) -> String {
    e.to_string()
}

/// The `Display` text of a `zip::result::ZipError`.
#[verifier::external_body]
fn zip_error_text(e: &zip::result::ZipError) -> String {
    e.to_string()
}

/// The `Display` text of a `rusqlite::Error`.
#[verifier::external_body]
fn sql_error_text(e: &rusqlite::Error) -> String {
    e.to_string()
}

fn with_code(mut text: String, code: u32) -> (r: String)
    ensures
        r@ == text@ + " Code: "@ + dec(code as nat),
{
    text.append(" Code: ");
    push_dec(&mut text, code as u64);
    text
}

impl MdownError {
    /// The error as one line of text: its message and `Code: <code>`; a custom error
    /// reads `Error: <kind> <message> Code <code>`. The message of an error of another
    /// library is that library's own text.
    pub fn into(self) -> (r: String)
        ensures
            text_message(self) matches Some(t) ==> r@ == t,
            text_message(self) is None ==> r@.len() >= (" Code: "@ + dec(code_of(self) as nat)).len()
                && r@.subrange(r@.len() - (" Code: "@ + dec(code_of(self) as nat)).len(), r@.len() as int)
                == " Code: "@ + dec(code_of(self) as nat),
    {
        proof {
            reveal_strlit(" Code: ");
            reveal_strlit("Error: ");
            reveal_strlit(" ");
            reveal_strlit(" Code ");
        }
        let ghost suffix = " Code: "@ + dec(code_of(self) as nat);
        let r = match self {
            MdownError::IoError(e, _name, c) => with_code(io_error_text(&e), c),
            MdownError::StatusError(s, c) => with_code(status_text(&s), c),
            MdownError::NetworkError(e, c) => with_code(reqwest_error_text(&e), c),
            MdownError::JsonError(m, c) => with_code(m, c),
            MdownError::ConversionError(m, c) => with_code(m, c),
            MdownError::NotFoundError(m, c) => with_code(m, c),
            MdownError::ZipError(e, c) => with_code(zip_error_text(&e), c),
            MdownError::RegexError(e, c) => with_code(regex_error_text(&e), c),
            MdownError::DatabaseError(e, c) => with_code(sql_error_text(&e), c),
            MdownError::CustomError(m, name, c) => {
                let mut s = String::from_str("Error: ");
                s.append(name.as_str());
                s.append(" ");
                s.append(m.as_str());
                s.append(" Code ");
                push_dec(&mut s, c as u64);
                s
            },
        };
        r
    }

    /// The error's code, as a signed number.
    pub fn code(&self) -> (r: i32)
        ensures
            r == code_of(*self) as i32,
    {
        let c: u32 = match self {
            MdownError::IoError(_, _, c) => *c,
            MdownError::StatusError(_, c) => *c,
            MdownError::NetworkError(_, c) => *c,
            MdownError::JsonError(_, c) => *c,
            MdownError::ConversionError(_, c) => *c,
            MdownError::NotFoundError(_, c) => *c,
            MdownError::ZipError(_, c) => *c,
            MdownError::RegexError(_, c) => *c,
            MdownError::DatabaseError(_, c) => *c,
            MdownError::CustomError(_, _, c) => *c,
        };
        c as i32
    }

    /// A harmless error, for trying out error handling.
    pub fn new() -> (r: MdownError)
        ensures
            r matches MdownError::CustomError(m, k, c) && m@ == "Nothing to worry about"@ && k@
                == "TestError"@ && c == 11000,
    {
        MdownError::CustomError(
            String::from_str("Nothing to worry about"),
            String::from_str("TestError"),
            11000,
        )
    }
}

/// The `Display` text of an error whose message is held in the error itself: the kind,
/// the message and the code in brackets; `None` for those that wrap an error of another
/// library.
pub open spec fn display_text(e: MdownError) -> Option<Seq<char>> {
    match e {
        MdownError::JsonError(m, c) => Some("Json error: "@ + m@ + " ("@ + dec(c as nat) + ")"@),
        MdownError::ConversionError(m, c) => Some("Conversion error: "@ + m@ + " ("@ + dec(c as nat) + ")"@),
        MdownError::NotFoundError(m, c) => Some("NotFound error: Didn't found "@ + m@ + " ("@ + dec(c as nat) + ")"@),
        MdownError::CustomError(m, k, c) => Some(k@ + " error: "@ + m@ + " ("@ + dec(c as nat) + ")"@),
        _ => None,
    }
}

/// The start of the `Display` text of an error.
pub open spec fn display_prefix(e: MdownError) -> Seq<char> {
    match e {
        MdownError::IoError(..) => "I/O error: "@,
        MdownError::StatusError(..) => "Status error: "@,
        MdownError::NetworkError(..) => "Network error: "@,
        MdownError::RegexError(..) => "Regex error: "@,
        MdownError::JsonError(..) => "Json error: "@,
        MdownError::ConversionError(..) => "Conversion error: "@,
        MdownError::NotFoundError(..) => "NotFound error: Didn't found "@,
        MdownError::ZipError(..) => "Zip error: "@,
        MdownError::DatabaseError(..) => "Database error: "@,
        MdownError::CustomError(_, k, _) => k@ + " error: "@,
    }
}

/// Whether `a` begins with `p`.
pub open spec fn begins_with(a: Seq<char>, p: Seq<char>) -> bool {
    p.len() <= a.len() && a.subrange(0, p.len() as int) == p
}

/// Whether `a` ends with `p`.
pub open spec fn finishes_with(a: Seq<char>, p: Seq<char>) -> bool {
    p.len() <= a.len() && a.subrange(a.len() - p.len(), a.len() as int) == p
}

fn framed(prefix: &str, inner: &str, code: u32) -> (r: String)
    ensures
        r@ == prefix@ + inner@ + " ("@ + dec(code as nat) + ")"@,
{
    let mut s = String::from_str(prefix);
    s.append(inner);
    s.append(" (");
    push_dec(&mut s, code as u64);
    s.append(")");
    s
}

impl MdownError {
    /// The error's `Display` text: its kind, its message (for an error of another library,
    /// that library's text) and its code in brackets; a file-system error also names its
    /// path in brackets.
    pub fn describe(&self) -> (r: String)
        ensures
            display_text(*self) matches Some(t) ==> r@ == t,
            begins_with(r@, display_prefix(*self)),
            finishes_with(r@, " ("@ + dec(code_of(*self) as nat) + ")"@),
    {
        proof {
            reveal_strlit(" (");
            reveal_strlit(")");
        }
        let r = match self {
            MdownError::IoError(e, path, c) => {
                let mut inner = io_error_text(e);
                inner.append(" (");
                inner.append(path.as_str());
                inner.append(")");
                framed("I/O error: ", inner.as_str(), *c)
            },
            MdownError::StatusError(st, c) => framed("Status error: ", status_text(st).as_str(), *c),
            MdownError::NetworkError(e, c) => framed("Network error: ", reqwest_error_text(e).as_str(), *c),
            MdownError::RegexError(e, c) => framed("Regex error: ", regex_error_text(e).as_str(), *c),
            MdownError::JsonError(m, c) => framed("Json error: ", m.as_str(), *c),
            MdownError::ConversionError(m, c) => framed("Conversion error: ", m.as_str(), *c),
            MdownError::NotFoundError(m, c) => framed("NotFound error: Didn't found ", m.as_str(), *c),
            MdownError::ZipError(e, c) => framed("Zip error: ", zip_error_text(e).as_str(), *c),
            MdownError::DatabaseError(e, c) => framed("Database error: ", sql_error_text(e).as_str(), *c),
            MdownError::CustomError(m, k, c) => {
                let mut prefix = k.clone();
                prefix.append(" error: ");
                framed(prefix.as_str(), m.as_str(), *c)
            },
        };
        proof {
            let p = display_prefix(*self);
            let q = " ("@ + dec(code_of(*self) as nat) + ")"@;
            assert(r@.subrange(0, p.len() as int) =~= p);
            assert(r@.subrange(r@.len() - q.len(), r@.len() as int) =~= q);
        }
        r
    }

    /// The line that reports the error, as the program prints it (`from` names where it
    /// happened): a file-system error shows its text, its path when it has one, and its
    /// code; any other error reads `Error: ` and its [`describe`](MdownError::describe) text.
    pub fn report_line(&self, from: Option<&str>) -> (r: String)
        ensures
            !(self is IoError) ==> ({
                let mid = r@.subrange(7, r@.len() - from_suffix(from).len());
                &&& 7 + from_suffix(from).len() <= r@.len()
                &&& r@ == "Error: "@ + mid + from_suffix(from)
                &&& begins_with(mid, display_prefix(*self))
                &&& finishes_with(mid, " ("@ + dec(code_of(*self) as nat) + ")"@)
                &&& (display_text(*self) matches Some(t) ==> mid == t)
            }),
            self matches MdownError::IoError(_, path, c) ==> begins_with(r@, "Error: IO Error "@) && (path@.len()
                == 0 ==> finishes_with(r@, " ("@ + from_suffix(from) + ")"@ + " Code: "@ + dec(c as nat))) && (
            path@.len() > 0 ==> finishes_with(r@, " in file "@ + path@ + from_suffix(from) + " Code: "@ + dec(
                c as nat,
            ))),
    {
        proof {
            reveal_strlit("Error: ");
            reveal_strlit("Error: IO Error ");
            reveal_strlit(" Code: ");
            reveal_strlit(" (");
            reveal_strlit(")");
            reveal_strlit(" in file ");
        }
        let mut to = String::new();
        match from {
            Some(v) => {
                to.append(" (");
                to.append(v);
                to.append(")");
            },
            None => {},
        }
        assert(to@ == from_suffix(from));
        match self {
            MdownError::IoError(e, name, c) => {
                let mut s = String::from_str("Error: IO Error ");
                s.append(io_error_text(e).as_str());
                if name.as_str().unicode_len() == 0 {
                    s.append(" (");
                    s.append(to.as_str());
                    s.append(")");
                } else {
                    s.append(" in file ");
                    s.append(name.as_str());
                    s.append(to.as_str());
                }
                s.append(" Code: ");
                push_dec(&mut s, *c as u64);
                proof {
                    let q = " Code: "@ + dec(*c as nat);
                    let tail = if name@.len() == 0 {
                        " ("@ + from_suffix(from) + ")"@ + " Code: "@ + dec(*c as nat)
                    } else {
                        " in file "@ + name@ + from_suffix(from) + " Code: "@ + dec(*c as nat)
                    };
                    assert(s@.subrange(s@.len() - tail.len(), s@.len() as int) =~= tail);
                    assert(s@.subrange(0, "Error: IO Error "@.len() as int) =~= "Error: IO Error "@);
                }
                s
            },
            _ => {
                let mut s = String::from_str("Error: ");
                let d = self.describe();
                s.append(d.as_str());
                s.append(to.as_str());
                proof {
                    assert("Error: "@.len() == 7);
                    assert(s@.subrange(7, s@.len() - to@.len()) =~= d@);
                }
                s
            },
        }
    }
}

/// ` (<from>)` when a place is named, else nothing.
pub open spec fn from_suffix(from: Option<&str>) -> Seq<char> {
    match from {
        Some(v) => " ("@ + v@ + ")"@,
        None => seq![],
    }
}

/// Puts an error aside, to be reported when the run ends.
pub fn suspend_error(suspended: &mut Vec<MdownError>, err: MdownError)
    ensures
        final(suspended)@ == old(suspended)@.push(err),
{
    suspended.push(err);
}

} // verus!
