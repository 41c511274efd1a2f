//! Saved settings: how the `settings` subcommand changes the stored resources, how stored
//! resources are encoded, and what the program runs with after reading them back.

use vstd::prelude::*;
use vstd::string::*;
use vstd::utf8::{valid_utf8, decode_utf8, encode_utf8};
use crate::args::Settings;
use crate::error::MdownError;
use crate::text::str_eq;

verus! {

/// Name of the stored download folder.
pub open spec fn db_folder() -> Seq<char> {
    "2001"@
}

/// Name of the stored statistics flag.
pub open spec fn db_stat() -> Seq<char> {
    "2002"@
}

/// Name of the stored tutorial flag.
pub open spec fn db_tutorial() -> Seq<char> {
    "2003"@
}

/// Name of the stored backup flag.
pub open spec fn db_backup() -> Seq<char> {
    "2004"@
}

/// A change to the table of stored resources.
#[derive(Debug)]
pub enum ResourceOp {
    /// Store `value` (as text) under `name`, replacing what was there.
    Write { name: String, value: String },
    /// Remove what is stored under `name`.
    Delete { name: String },
}

/// The value of a [`ResourceOp`].
pub enum ResourceOpView {
    Write(Seq<char>, Seq<char>),
    Delete(Seq<char>),
}

/// The view of a change.
pub open spec fn op_view(op: ResourceOp) -> ResourceOpView {
    match op {
        ResourceOp::Write { name, value } => ResourceOpView::Write(name@, value@),
        ResourceOp::Delete { name } => ResourceOpView::Delete(name@),
    }
}

/// The views of a list of changes.
pub open spec fn ops_view(ops: Seq<ResourceOp>) -> Seq<ResourceOpView> {
    ops.map_values(|op: ResourceOp| op_view(op))
}

/// What an option of `settings` does to the resource `name`: given a value, store it;
/// given bare, remove it; absent, nothing.
pub open spec fn option_ops(name: Seq<char>, o: Option<Option<String>>) -> Seq<ResourceOpView> {
    match o {
        Some(Some(v)) => seq![ResourceOpView::Write(name, v@)],
        Some(None) => seq![ResourceOpView::Delete(name)],
        None => seq![],
    }
}

/// Whether a flag value is one that the settings accept.
pub open spec fn is_flag(v: Seq<char>) -> bool {
    v == "0"@ || v == "1"@
}

/// The changes that `settings` asks for, in order: folder, statistics flag (only `0` or
/// `1` is stored), backup flag, then with `--clear` the removal of the folder, the
/// statistics flag, the tutorial flag and the backup flag.
pub open spec fn settings_ops_spec(
    folder: Option<Option<String>>,
    stat: Option<Option<String>>,
    backup: Option<Option<String>>,
    clear: bool,
) -> Seq<ResourceOpView> {
    let stat_ops = match stat {
        Some(Some(v)) => if is_flag(v@) { option_ops(db_stat(), stat) } else { seq![] },
        _ => option_ops(db_stat(), stat),
    };
    option_ops(db_folder(), folder) + stat_ops + option_ops(db_backup(), backup) + if clear {
        seq![
            ResourceOpView::Delete(db_folder()),
            ResourceOpView::Delete(db_stat()),
            ResourceOpView::Delete(db_tutorial()),
            ResourceOpView::Delete(db_backup()),
        ]
    } else {
        seq![]
    }
}

/// Whether `settings --stat` was given a value that is not a flag; such a value is not
/// stored and the run reports it.
pub open spec fn rejects_stat(stat: Option<Option<String>>) -> bool {
    stat matches Some(Some(v)) && !is_flag(v@)
}

fn push_op(ops: &mut Vec<ResourceOp>, op: ResourceOp)
    ensures
        ops_view(final(ops)@) == ops_view(old(ops)@).push(op_view(op)),
{
    let ghost before = ops@;
    ops.push(op);
    assert(ops_view(ops@) =~= ops_view(before).push(op_view(op)));
}

fn name_of(name: &str) -> (r: String)
    ensures
        r@ == name@,
{
    String::from_str(name)
}

fn push_option(ops: &mut Vec<ResourceOp>, name: &str, o: &Option<Option<String>>)
    ensures
        ops_view(final(ops)@) == ops_view(old(ops)@) + option_ops(name@, *o),
{
    match o {
        Some(Some(v)) => {
            push_op(ops, ResourceOp::Write { name: name_of(name), value: v.clone() });
        },
        Some(None) => {
            push_op(ops, ResourceOp::Delete { name: name_of(name) });
        },
        None => {},
    }
    assert(ops_view(ops@) =~= ops_view(old(ops)@) + option_ops(name@, *o));
}

fn is_flag_text(v: &str) -> (r: bool)
    ensures
        r == is_flag(v@),
{
    str_eq(v, "0") || str_eq(v, "1")
}

/// The changes that the `settings` subcommand makes to the stored resources, and
/// whether it was given a statistics value that is not `0` or `1` (which is then left
/// out and reported).
pub fn settings_ops(
    folder: &Option<Option<String>>,
    stat: &Option<Option<String>>,
    backup: &Option<Option<String>>,
    clear: bool,
) -> (r: (Vec<ResourceOp>, bool))
    ensures
        ops_view(r.0@) == settings_ops_spec(*folder, *stat, *backup, clear),
        r.1 == rejects_stat(*stat),
{
    proof {
        reveal_strlit("2001");
        reveal_strlit("2002");
        reveal_strlit("2003");
        reveal_strlit("2004");
    }
    let mut ops: Vec<ResourceOp> = Vec::new();
    push_option(&mut ops, "2001", folder);
    let ghost after_folder = ops_view(ops@);
    let mut rejected = false;
    match stat {
        Some(Some(v)) => {
            if is_flag_text(v.as_str()) {
                push_option(&mut ops, "2002", stat);
            } else {
                rejected = true;
            }
        },
        _ => {
            push_option(&mut ops, "2002", stat);
        },
    }
    let ghost after_stat = ops_view(ops@);
    push_option(&mut ops, "2004", backup);
    let ghost after_backup = ops_view(ops@);
    if clear {
        push_op(&mut ops, ResourceOp::Delete { name: name_of("2001") });
        push_op(&mut ops, ResourceOp::Delete { name: name_of("2002") });
        push_op(&mut ops, ResourceOp::Delete { name: name_of("2003") });
        push_op(&mut ops, ResourceOp::Delete { name: name_of("2004") });
    }
    assert(ops_view(ops@) =~= settings_ops_spec(*folder, *stat, *backup, clear));
    (ops, rejected)
}

/// `String::from_utf8`: succeeds exactly on valid UTF-8, with the text those bytes encode.
#[verifier::external_body]
fn string_from_utf8(bytes: Vec<u8>) -> (r: Result<String, std::string::FromUtf8Error>)
    ensures
        match r {
            Ok(s) => valid_utf8(bytes@) && s@ == decode_utf8(bytes@),
            Err(_) => !valid_utf8(bytes@),
        },
{
    String::from_utf8(bytes)
}

/// `std::string::FromUtf8Error`, carried through unchanged.
#[verifier::external_type_specification]
#[verifier::external_body]
pub struct ExFromUtf8Error(std::string::FromUtf8Error);

/// The `Display` text of a `FromUtf8Error`.
#[verifier::external_body]
fn utf8_error_text(e: &std::string::FromUtf8Error) -> String {
    e.to_string()
}

/// The base64 text (standard alphabet, padded) of some bytes.
pub uninterp spec fn base64_encoding(bytes: Seq<u8>) -> Seq<char>;

/// The bytes a base64 text (standard alphabet, padded) stands for, `None` when it is
/// not such a text.
pub uninterp spec fn base64_decoding(text: Seq<char>) -> Option<Seq<u8>>;

/// `base64::encode` (standard engine, with padding): the named text, which the standard
/// decoder turns back into the same bytes.
#[verifier::external_body]
fn base64_encode(bytes: &[u8]) -> (r: String)
    ensures
        r@ == base64_encoding(bytes@),
        base64_decoding(r@) == Some(bytes@),
{
    #[allow(deprecated)]
    base64::encode(bytes)
}

/// `base64::decode` (standard engine): the named result.
#[verifier::external_body]
fn base64_decode(text: &str) -> (r: Option<Vec<u8>>)
    ensures
        match r {
            Some(b) => base64_decoding(text@) == Some(b@),
            None => base64_decoding(text@) is None,
        },
{
    #[allow(deprecated)]
    match base64::decode(text) {
        Ok(v) => Some(v),
        Err(_) => None,
    }
}

/// The text stored for a resource: base64 of the bytes when they are binary, else the
/// bytes read as UTF-8.
pub open spec fn resource_text_spec(data: Seq<u8>, is_binary: bool) -> Option<Seq<char>> {
    if is_binary {
        Some(base64_encoding(data))
    } else if valid_utf8(data) {
        Some(decode_utf8(data))
    } else {
        None
    }
}

/// The bytes that a stored text stands for: decoded from base64 when it is binary
/// (`None` when it is not base64), else its UTF-8 bytes.
pub open spec fn stored_bytes_spec(text: Seq<char>, is_binary: bool) -> Option<Seq<u8>> {
    if is_binary {
        base64_decoding(text)
    } else {
        Some(encode_utf8(text))
    }
}

/// The text under which `data` is stored; text that is not UTF-8 is refused with a
/// `Base64Error` of code 10604. What is stored reads back as `data`.
pub fn resource_text(data: Vec<u8>, is_binary: bool) -> (r: Result<String, MdownError>)
    ensures
        match resource_text_spec(data@, is_binary) {
            Some(t) => r matches Ok(s) && s@ == t,
            None => r matches Err(MdownError::CustomError(_, k, c)) && k@ == "Base64Error"@ && c == 10604,
        },
        r matches Ok(s) ==> stored_bytes_spec(s@, is_binary) == Some(data@),
{
    proof {
        if !is_binary && valid_utf8(data@) {
            vstd::utf8::decode_utf8_encode_utf8(data@);
        }
    }
    if is_binary {
        Ok(base64_encode(data.as_slice()))
    } else {
        match string_from_utf8(data) {
            Ok(s) => Ok(s),
            Err(e) => Err(
                MdownError::CustomError(utf8_error_text(&e), String::from_str("Base64Error"), 10604),
            ),
        }
    }
}

/// The bytes of a stored resource: decoded from base64 when it is binary (`None` when
/// that fails), else the UTF-8 bytes of its text.
pub fn resource_bytes(data: &str, is_binary: bool) -> (r: Option<Vec<u8>>)
    ensures
        match r {
            Some(b) => stored_bytes_spec(data@, is_binary) == Some(b@),
            None => stored_bytes_spec(data@, is_binary) is None,
        },
{
    if is_binary {
        base64_decode(data)
    } else {
        Some(data.as_bytes_vec())
    }
}

/// What a stored flag means: `1` on, `0` off, anything else is not a flag.
pub open spec fn flag_value(v: Seq<char>) -> Option<bool> {
    if v == "1"@ {
        Some(true)
    } else if v == "0"@ {
        Some(false)
    } else {
        None
    }
}

/// Reads a stored flag.
pub fn stored_flag(v: &str) -> (r: Option<bool>)
    ensures
        r == flag_value(v@),
{
    if str_eq(v, "1") {
        Some(true)
    } else if str_eq(v, "0") {
        Some(false)
    } else {
        None
    }
}

/// The settings the program runs with, from the stored folder, statistics flag and
/// backup flag (each absent when nothing is stored): the stored folder, else the one
/// given on the command line; the stored statistics flag, else the command line's; the
/// stored backup flag, else on. A stored flag other than `0` or `1` counts as off.
pub open spec fn settings_spec(
    folder: Option<Seq<char>>,
    stat: Option<Seq<char>>,
    backup: Option<Seq<char>>,
    arg_folder: Seq<char>,
    arg_stat: bool,
) -> (Seq<char>, bool, bool) {
    (
        match folder {
            Some(f) => f,
            None => arg_folder,
        },
        match stat {
            Some(s) => flag_value(s) == Some(true),
            None => arg_stat,
        },
        match backup {
            Some(b) => flag_value(b) == Some(true),
            None => true,
        },
    )
}

/// The text of an optional string.
pub open spec fn opt_view(o: Option<String>) -> Option<Seq<char>> {
    match o {
        Some(s) => Some(s@),
        None => None,
    }
}

/// Whether a stored value is present and is not a flag.
pub open spec fn bad_flag(v: Option<String>) -> bool {
    v matches Some(s) && flag_value(s@) is None
}

fn user_error(message: &str, code: u32) -> (e: MdownError)
    ensures
        e matches MdownError::CustomError(m, k, c) && m@ == message@ && k@ == "UserError"@ && c == code,
{
    MdownError::CustomError(String::from_str(message), String::from_str("UserError"), code)
}

/// Builds the settings from what is stored (see [`settings_spec`]); a stored statistics or
/// backup value that is not a flag is reported among the returned errors, with codes
/// 10622 and 10624, in that order.
pub fn resolve_settings(
    folder: Option<String>,
    stat: Option<String>,
    backup: Option<String>,
    arg_folder: &str,
    arg_stat: bool,
) -> (r: (Settings, Vec<MdownError>))
    ensures
        (r.0.folder@, r.0.stat, r.0.backup) == settings_spec(
            opt_view(folder),
            opt_view(stat),
            opt_view(backup),
            arg_folder@,
            arg_stat,
        ),
        r.1@.len() == (if bad_flag(stat) { 1int } else { 0int }) + (if bad_flag(backup) { 1int } else { 0int }),
        bad_flag(stat) ==> (r.1@[0] matches MdownError::CustomError(m, k, c) && m@
            == "stat should be 1 or 0"@ && k@ == "UserError"@ && c == 10622),
        bad_flag(backup) ==> (r.1@.last() matches MdownError::CustomError(m, k, c) && m@
            == "backup should be 1 or 0"@ && k@ == "UserError"@ && c == 10624),
{
    let mut suspended: Vec<MdownError> = Vec::new();
    let folder_value = match folder {
        Some(f) => f,
        None => String::from_str(arg_folder),
    };
    let stat_value = match &stat {
        Some(s) => match stored_flag(s.as_str()) {
            Some(b) => b,
            None => {
                suspended.push(user_error("stat should be 1 or 0", 10622));
                false
            },
        },
        None => arg_stat,
    };
    let backup_value = match &backup {
        Some(s) => match stored_flag(s.as_str()) {
            Some(b) => b,
            None => {
                suspended.push(user_error("backup should be 1 or 0", 10624));
                false
            },
        },
        None => true,
    };
    (Settings { folder: folder_value, stat: stat_value, backup: backup_value }, suspended)
}

/// Whether the tutorial runs, and whether "seen" is to be stored: when the tutorial flag
/// is stored, it runs if that flag is `1`; when it is not, it runs (and "seen" is stored)
/// only on a plain download run, one with none of the other modes. `--tutorial` forces it
/// on, else `--skip-tutorial` forces it off.
pub open spec fn tutorial_spec(stored: Option<Seq<char>>, plain_run: bool, tutorial: bool, skip: bool) -> (
    bool,
    bool,
) {
    let (on, store_seen) = match stored {
        Some(v) => (v == "1"@, false),
        None => (plain_run, plain_run),
    };
    (if tutorial { true } else if skip { false } else { on }, store_seen)
}

/// Decides about the tutorial (see [`tutorial_spec`]).
pub fn tutorial_decision(stored: Option<&str>, plain_run: bool, tutorial: bool, skip: bool) -> (r: (
    bool,
    bool,
))
    ensures
        r == tutorial_spec(
            match stored {
                Some(v) => Some(v@),
                None => None,
            },
            plain_run,
            tutorial,
            skip,
        ),
{
    let (on, store_seen) = match stored {
        Some(v) => (str_eq(v, "1"), false),
        None => (plain_run, plain_run),
    };
    (if tutorial { true } else if skip { false } else { on }, store_seen)
}

/// Whether a resource with these dependencies is left out of the first-run setup:
/// unless setup is forced, one that depends on `web`, `gui` or `server` is left out
/// when that mode is off.
pub open spec fn skips_dependency(deps: Seq<String>, force: bool, web: bool, gui: bool, server: bool) -> bool {
    !force && exists|i: int|
        0 <= i < deps.len() && {
            let d = #[trigger] deps[i]@;
            (d == "web"@ && !web) || (d == "gui"@ && !gui) || (d == "server"@ && !server)
        }
}

/// Decides whether the first-run setup leaves a resource out (see [`skips_dependency`]).
pub fn skip_resource(deps: &Vec<String>, force: bool, web: bool, gui: bool, server: bool) -> (r: bool)
    ensures
        r == skips_dependency(deps@, force, web, gui, server),
{
    if force {
        return false;
    }
    let mut skip = false;
    let mut i: usize = 0;
    while i < deps.len()
        invariant
            i <= deps@.len(),
            !force,
            skip == exists|k: int|
                0 <= k < i && {
                    let d = #[trigger] deps@[k]@;
                    (d == "web"@ && !web) || (d == "gui"@ && !gui) || (d == "server"@ && !server)
                },
        decreases deps@.len() - i,
    {
        let d = deps[i].as_str();
        if (str_eq(d, "web") && !web) || (str_eq(d, "gui") && !gui) || (str_eq(d, "server") && !server) {
            skip = true;
        }
        i = i + 1;
    }
    skip
}

} // verus!
