//! Versions of the program and of its database, and the checks of a self-update: which
//! release asset to fetch and which checksum it must have.

use vstd::prelude::*;
use vstd::string::*;
use sha2::Digest;
use crate::error::MdownError;
use crate::text::{str_chars, chars_to_string, str_eq, trim, trim_chars, contains_sub, chars_contains};

verus! {

/// The part of a version before its first `-`: the version without its pre-release.
pub open spec fn core_version(v: Seq<char>) -> Seq<char>
    decreases v.len(),
{
    if v.len() == 0 || v[0] == '-' {
        seq![]
    } else {
        seq![v[0]] + core_version(v.drop_first())
    }
}

/// Removes the pre-release part of a version, e.g. `1.2.3-beta` becomes `1.2.3`.
pub fn remove_prerelease(version: &str) -> (r: String)
    ensures
        r@ == core_version(version@),
{
    let cs = str_chars(version);
    let n = cs.len();
    let mut i: usize = 0;
    assert(cs@.subrange(0, n as int) == cs@);
    assert(cs@.subrange(0, 0) + core_version(cs@) == core_version(cs@));
    while i < n && cs[i] != '-'
        invariant
            i <= n,
            n == cs@.len(),
            core_version(cs@) == cs@.subrange(0, i as int) + core_version(cs@.subrange(i as int, n as int)),
        decreases n - i,
    {
        assert(cs@.subrange(i as int, n as int).drop_first() == cs@.subrange(i + 1, n as int));
        assert(cs@.subrange(0, i + 1) == cs@.subrange(0, i as int) + seq![cs@[i as int]]);
        i = i + 1;
    }
    proof {
        assert(cs@.subrange(0, 0) + core_version(cs@.subrange(0, n as int)) == core_version(cs@)) by {
            assert(cs@.subrange(0, n as int) == cs@);
        }
        assert(core_version(cs@.subrange(i as int, n as int)) == Seq::<char>::empty());
    }
    let mut out: Vec<char> = Vec::new();
    let mut k: usize = 0;
    while k < i
        invariant
            k <= i <= n,
            n == cs@.len(),
            out@ == cs@.subrange(0, k as int),
        decreases i - k,
    {
        out.push(cs[k]);
        k = k + 1;
        assert(out@ == cs@.subrange(0, k as int));
    }
    assert(cs@.subrange(0, i as int) + Seq::<char>::empty() == cs@.subrange(0, i as int));
    chars_to_string(out.as_slice())
}

/// The version of the program, from the version of its package: without its
/// pre-release part.
pub fn get_current_version(package_version: &str) -> (r: String)
    ensures
        r@ == core_version(package_version@),
{
    remove_prerelease(package_version)
}

/// Whether `a` ends with `b`.
pub open spec fn ends_with(a: Seq<char>, b: Seq<char>) -> bool {
    b.len() <= a.len() && a.subrange(a.len() - b.len(), a.len() as int) == b
}

pub(crate) fn ends_with_exec(a: &str, b: &str) -> (r: bool)
    ensures
        r == ends_with(a@, b@),
{
    let x = str_chars(a);
    let y = str_chars(b);
    if y.len() > x.len() {
        return false;
    }
    let off = x.len() - y.len();
    let mut i: usize = 0;
    while i < y.len()
        invariant
            i <= y@.len(),
            off + y@.len() == x@.len(),
            x@.len() <= usize::MAX,
            x@ == a@,
            y@ == b@,
            forall|k: int| 0 <= k < i ==> x@[off + k] == y@[k],
        decreases y@.len() - i,
    {
        if x[off + i] != y[i] {
            proof {
                let sub = x@.subrange(off as int, x@.len() as int);
                assert(sub[i as int] == x@[off + i]);
                assert(sub[i as int] != y@[i as int]);
                assert(sub != y@);
            }
            return false;
        }
        i = i + 1;
    }
    assert(x@.subrange(off as int, x@.len() as int) =~= y@);
    true
}

/// The first download URL among the release assets that ends with `target`.
pub open spec fn asset_url_spec(urls: Seq<Option<String>>, target: Seq<char>) -> Option<Seq<char>>
    decreases urls.len(),
{
    if urls.len() == 0 {
        None
    } else if urls[0] matches Some(u) && ends_with(u@, target) {
        Some(urls[0]->0@)
    } else {
        asset_url_spec(urls.drop_first(), target)
    }
}

/// The download URL of the release asset named `target`, from the `browser_download_url`
/// of each asset (`None` where it is not a string; `assets` is `None` when the release
/// has no asset list): a missing list is a `ConversionError` (11615), no match a
/// `NotFoundError` (11620).
pub fn search_url(assets: &Option<Vec<Option<String>>>, target: &str) -> (r: Result<String, MdownError>)
    ensures
        match assets {
            None => r matches Err(MdownError::ConversionError(_, c)) && c == 11615,
            Some(urls) => match asset_url_spec(urls@, target@) {
                Some(u) => r matches Ok(s) && s@ == u,
                None => r matches Err(MdownError::NotFoundError(_, c)) && c == 11620,
            },
        },
{
    let urls = match assets {
        Some(u) => u,
        None => {
            return Err(
                MdownError::ConversionError(String::from_str("Expected 'assets' to be an array"), 11615),
            );
        },
    };
    let mut i: usize = 0;
    assert(urls@.subrange(0, urls@.len() as int) == urls@);
    while i < urls.len()
        invariant
            i <= urls@.len(),
            assets is Some,
            assets->0@ == urls@,
            asset_url_spec(urls@, target@) == asset_url_spec(urls@.subrange(i as int, urls@.len() as int), target@),
        decreases urls@.len() - i,
    {
        assert(urls@.subrange(i as int, urls@.len() as int).drop_first() == urls@.subrange(
            i + 1,
            urls@.len() as int,
        ));
        match &urls[i] {
            Some(u) => {
                if ends_with_exec(u.as_str(), target) {
                    return Ok(u.clone());
                }
            },
            None => {},
        }
        i = i + 1;
    }
    Err(MdownError::NotFoundError(String::from_str("No matching URL found"), 11620))
}

/// The release file that replaces the program: its own name when that is one of the
/// released files, else `mdown.exe`.
pub fn target_file(current_name: &str) -> (r: String)
    ensures
        r@ == (if current_name@ == "mdown.exe"@ || current_name@ == "mdown_min.exe"@ {
            current_name@
        } else {
            "mdown.exe"@
        }),
{
    if str_eq(current_name, "mdown.exe") || str_eq(current_name, "mdown_min.exe") {
        String::from_str(current_name)
    } else {
        String::from_str("mdown.exe")
    }
}

/// Position of the first newline.
pub open spec fn first_newline(s: Seq<char>) -> Option<int>
    decreases s.len(),
{
    if s.len() == 0 {
        None
    } else if s[0] == '\n' {
        Some(0)
    } else {
        match first_newline(s.drop_first()) {
            Some(k) => Some(k + 1),
            None => None,
        }
    }
}

/// A line without the carriage return that ends it.
pub open spec fn strip_cr(l: Seq<char>) -> Seq<char> {
    if l.len() > 0 && l.last() == '\r' { l.drop_last() } else { l }
}

/// The lines of a text, as `str::lines` gives them: split after each newline, a final
/// newline ending the last line, `\r\n` counted as one line end.
pub open spec fn text_lines(s: Seq<char>) -> Seq<Seq<char>>
    decreases s.len(),
{
    if s.len() == 0 {
        seq![]
    } else {
        match first_newline(s) {
            None => seq![s],
            Some(i) => {
                proof {
                    lemma_first_newline(s);
                }
                seq![strip_cr(s.subrange(0, i))] + text_lines(s.subrange(i + 1, s.len() as int))
            },
        }
    }
}

pub proof fn lemma_first_newline(s: Seq<char>)
    ensures
        first_newline(s) matches Some(i) ==> 0 <= i < s.len() && s[i] == '\n' && forall|k: int|
            0 <= k < i ==> s[k] != '\n',
        first_newline(s) is None ==> forall|k: int| 0 <= k < s.len() ==> s[k] != '\n',
    decreases s.len(),
{
    if s.len() > 0 {
        lemma_first_newline(s.drop_first());
        assert forall|k: int| 1 <= k < s.len() implies s[k] == s.drop_first()[k - 1] by {}
    }
}

proof fn lemma_first_newline_at(s: Seq<char>, i: int)
    requires
        0 <= i < s.len(),
        s[i] == '\n',
        forall|k: int| 0 <= k < i ==> s[k] != '\n',
    ensures
        first_newline(s) == Some(i),
    decreases i,
{
    if i > 0 {
        lemma_first_newline_at(s.drop_first(), i - 1);
    }
}

proof fn lemma_no_newline(s: Seq<char>)
    requires
        forall|k: int| 0 <= k < s.len() ==> s[k] != '\n',
    ensures
        first_newline(s) is None,
    decreases s.len(),
{
    if s.len() > 0 {
        lemma_no_newline(s.drop_first());
    }
}

fn copy_range(s: &Vec<char>, lo: usize, hi: usize) -> (r: Vec<char>)
    requires
        lo <= hi <= s@.len(),
    ensures
        r@ == s@.subrange(lo as int, hi as int),
{
    let mut r: Vec<char> = Vec::new();
    let mut k: usize = lo;
    while k < hi
        invariant
            lo <= k <= hi <= s@.len(),
            r@ == s@.subrange(lo as int, k as int),
        decreases hi - k,
    {
        r.push(s[k]);
        k = k + 1;
        assert(r@ == s@.subrange(lo as int, k as int));
    }
    r
}

/// The texts of some lines.
pub open spec fn char_lines(v: Seq<Vec<char>>) -> Seq<Seq<char>> {
    v.map_values(|l: Vec<char>| l@)
}

/// The lines of a text (see [`text_lines`]).
pub fn split_lines(text: &str) -> (r: Vec<Vec<char>>)
    ensures
        char_lines(r@) == text_lines(text@),
{
    let s = str_chars(text);
    let n = s.len();
    let mut out: Vec<Vec<char>> = Vec::new();
    let mut start: usize = 0;
    assert(s@.subrange(0, n as int) == s@);
    while start < n
        invariant
            start <= n,
            n == s@.len(),
            char_lines(out@) + text_lines(s@.subrange(start as int, n as int)) == text_lines(s@),
        decreases n - start,
    {
        let ghost rest = s@.subrange(start as int, n as int);
        let mut j: usize = start;
        while j < n && s[j] != '\n'
            invariant
                start <= j <= n,
                n == s@.len(),
                forall|k: int| start <= k < j ==> s@[k] != '\n',
            decreases n - j,
        {
            j = j + 1;
        }
        let ghost before = out@;
        if j == n {
            proof {
                lemma_no_newline(rest);
            }
            out.push(copy_range(&s, start, n));
            assert(char_lines(out@) =~= char_lines(before).push(rest));
            assert(text_lines(rest) == seq![rest]);
            assert(text_lines(s@.subrange(n as int, n as int)) =~= Seq::<Seq<char>>::empty());
            start = n;
        } else {
            proof {
                lemma_first_newline_at(rest, j - start);
            }
            let mut end = j;
            if end > start && s[end - 1] == '\r' {
                end = end - 1;
            }
            let line = copy_range(&s, start, end);
            assert(line@ == strip_cr(rest.subrange(0, j - start)));
            out.push(line);
            assert(char_lines(out@) =~= char_lines(before).push(line@));
            assert(rest.subrange(j - start + 1, rest.len() as int) == s@.subrange(j + 1, n as int));
            start = j + 1;
        }
    }
    assert(text_lines(s@.subrange(n as int, n as int)) =~= Seq::<Seq<char>>::empty());
    assert(char_lines(out@) + Seq::<Seq<char>>::empty() =~= char_lines(out@));
    out
}

/// Position of the first line, from `from` on, that contains `key`.
pub open spec fn first_line_with(lines: Seq<Seq<char>>, key: Seq<char>, from: int) -> Option<int>
    decreases lines.len() - from,
{
    if from < 0 || from >= lines.len() {
        None
    } else if contains_sub(lines[from], key) {
        Some(from)
    } else {
        first_line_with(lines, key, from + 1)
    }
}

/// The line that holds the checksum of `target` in release notes: after the first line
/// with `## SHA256`, the first line with the file's name, and two lines below it; trimmed.
pub open spec fn checksum_line(body: Seq<char>, target: Seq<char>) -> Option<Seq<char>> {
    let lines = text_lines(body);
    match first_line_with(lines, "## SHA256"@, 0) {
        None => None,
        Some(a) => match first_line_with(lines, target, a) {
            None => None,
            Some(b) => if b + 2 < lines.len() {
                Some(trim(lines[b + 2]))
            } else {
                None
            },
        },
    }
}

fn find_line_with(lines: &Vec<Vec<char>>, key: &Vec<char>, from: usize) -> (r: Option<usize>)
    requires
        from <= lines@.len(),
    ensures
        r matches Some(k) ==> first_line_with(char_lines(lines@), key@, from as int) == Some(k as int),
        r is None ==> first_line_with(char_lines(lines@), key@, from as int) is None,
        r matches Some(i) ==> from <= i < lines@.len(),
{
    let ghost ls = char_lines(lines@);
    let mut i: usize = from;
    while i < lines.len()
        invariant
            from <= i <= lines@.len(),
            ls == char_lines(lines@),
            first_line_with(ls, key@, from as int) == first_line_with(ls, key@, i as int),
        decreases lines@.len() - i,
    {
        assert(ls[i as int] == lines@[i as int]@);
        if chars_contains(lines[i].as_slice(), key.as_slice()) {
            return Some(i);
        }
        i = i + 1;
    }
    None
}

/// The checksum the release notes give for `target`: the [`checksum_line`] without its
/// first and last character (the quotes round it). Notes without such a line are a
/// `NotFoundError` (11610).
pub fn checksum_for(body: &str, target: &str) -> (r: Result<String, MdownError>)
    requires
        checksum_line(body@, target@) matches Some(l) ==> l.len() >= 2,
    ensures
        match checksum_line(body@, target@) {
            Some(l) => r matches Ok(s) && s@ == l.subrange(1, l.len() - 1),
            None => r matches Err(MdownError::NotFoundError(m, c)) && m@ == "Checksum not found"@ && c == 11610,
        },
{
    let lines = split_lines(body);
    let ghost ls = char_lines(lines@);
    assert(ls == text_lines(body@));
    let head = str_chars("## SHA256");
    let key = str_chars(target);
    assert(head@ == "## SHA256"@);
    assert(key@ == target@);
    let not_found = MdownError::NotFoundError(String::from_str("Checksum not found"), 11610);
    let a = match find_line_with(&lines, &head, 0) {
        Some(a) => a,
        None => {
            return Err(not_found);
        },
    };
    let b = match find_line_with(&lines, &key, a) {
        Some(b) => b,
        None => {
            return Err(not_found);
        },
    };
    if b >= lines.len() || lines.len() - b <= 2 {
        return Err(not_found);
    }
    assert(ls[b + 2] == lines@[b + 2]@);
    let t = trim_chars(lines[b + 2].as_slice());
    let inner = copy_range(&t, 1, t.len() - 1);
    Ok(chars_to_string(inner.as_slice()))
}

/// The lower-case hexadecimal SHA-256 digest of some bytes.
pub uninterp spec fn sha256_hex(bytes: Seq<u8>) -> Seq<char>;

/// `sha2::Sha256` over the bytes, printed with `{:x}`.
#[verifier::external_body]
fn sha256_text(bytes: &[u8]) -> (r: String)
    ensures
        r@ == sha256_hex(bytes@),
{
    let mut hasher = sha2::Sha256::new();
    hasher.update(bytes);
    format!("{:x}", hasher.finalize())
}

/// Checks a downloaded release against the checksum of its notes: a mismatch is a
/// `CustomError` (11614).
pub fn verify_checksum(data: &[u8], checksum: &str) -> (r: Result<(), MdownError>)
    ensures
        sha256_hex(data@) == checksum@ ==> r is Ok,
        sha256_hex(data@) != checksum@ ==> (r matches Err(MdownError::CustomError(m, _, c)) && m@
            == "Checksum verification failed"@ && c == 11614),
{
    let digest = sha256_text(data);
    if str_eq(digest.as_str(), checksum) {
        Ok(())
    } else {
        Err(
            MdownError::CustomError(
                String::from_str("Checksum verification failed"),
                String::new(),
                11614,
            ),
        )
    }
}

/// Whether a text is a semantic version.
pub uninterp spec fn semver_valid(v: Seq<char>) -> bool;

/// Whether semantic version `a` comes after `b`.
pub uninterp spec fn semver_gt(a: Seq<char>, b: Seq<char>) -> bool;

/// `semver::Version::parse` succeeds.
#[verifier::external_body]
fn version_parses(v: &str) -> (r: bool)
    ensures
        r == semver_valid(v@),
{
    semver::Version::parse(v).is_ok()
}

/// `semver::Version::parse` on both texts and `>` on the versions; `None` when either
/// does not parse. `0.0.0` always parses.
#[verifier::external_body]
fn version_gt(a: &str, b: &str) -> (r: Option<bool>)
    ensures
        (r is Some) == (semver_valid(a@) && semver_valid(b@)),
        b@ == "0.0.0"@ ==> (r is Some) == semver_valid(a@),
        r matches Some(x) ==> x == semver_gt(a@, b@),
{
    match (semver::Version::parse(a), semver::Version::parse(b)) {
        (Ok(x), Ok(y)) => Some(x > y),
        _ => None,
    }
}

/// Whether the latest release, named by its tag (`v` and its version), is later than
/// the running version `current` (compared with `0.0.0` when `current` is not a
/// version). A tag that is not a string is a `ConversionError` (11606), one whose
/// version does not parse a `ConversionError` (11607).
pub fn update_available(tag: &Option<String>, current: &str) -> (r: Result<bool, MdownError>)
    requires
        tag matches Some(t) ==> t@.len() >= 1 && (t@[0] as u32) < 128,
    ensures
        tag is None ==> (r matches Err(MdownError::ConversionError(_, c)) && c == 11606),
        tag matches Some(t) ==> {
            let latest = t@.drop_first();
            &&& !semver_valid(latest) ==> (r matches Err(MdownError::ConversionError(_, c)) && c == 11607)
            &&& semver_valid(latest) && semver_valid(current@) ==> r == Ok::<bool, MdownError>(
                semver_gt(latest, current@),
            )
            &&& semver_valid(latest) && !semver_valid(current@) ==> r == Ok::<bool, MdownError>(
                semver_gt(latest, "0.0.0"@),
            )
        },
{
    let t = match tag {
        Some(t) => t,
        None => {
            return Err(
                MdownError::ConversionError(String::from_str("Tag name could not be converted to string"), 11606),
            );
        },
    };
    let cs = str_chars(t.as_str());
    let rest_chars = copy_range(&cs, 1, cs.len());
    let latest = chars_to_string(rest_chars.as_slice());
    assert(latest@ == t@.drop_first());
    let unparsable = MdownError::ConversionError(String::from_str("Unable to parse latest version"), 11607);
    if !version_parses(latest.as_str()) {
        return Err(unparsable);
    }
    let base = if version_parses(current) { current } else { "0.0.0" };
    match version_gt(latest.as_str(), base) {
        Some(b) => Ok(b),
        None => Err(unparsable),
    }
}

} // verus!
