//! What the web interface and the library server do with a request.

use vstd::prelude::*;
use vstd::string::*;
use vstd::utf8::*;
use crate::query::{get_query, query_get, query_params, query_value, split_chars, split_on};
use crate::text::{char_is_ws, chars_contains, chars_eq, chars_starts_with, chars_to_string, contains_sub, is_prefix, is_ws, str_chars};

verus! {

/// The words of `s`: maximal runs of characters that are not white space
/// (`str::split_whitespace`).
pub open spec fn words(s: Seq<char>) -> Seq<Seq<char>>
    decreases s.len(),
{
    if s.len() == 0 {
        seq![]
    } else if is_ws(s.last()) {
        words(s.drop_last())
    } else if s.len() >= 2 && !is_ws(s[s.len() - 2]) {
        let w = words(s.drop_last());
        w.update(w.len() - 1, w.last().push(s.last()))
    } else {
        words(s.drop_last()).push(seq![s.last()])
    }
}

proof fn lemma_words_nonempty(s: Seq<char>)
    requires
        s.len() > 0,
        !is_ws(s.last()),
    ensures
        words(s).len() > 0,
    decreases s.len(),
{
    if s.len() >= 2 && !is_ws(s[s.len() - 2]) {
        assert(s.drop_last().last() == s[s.len() - 2]);
        lemma_words_nonempty(s.drop_last());
    }
}

/// Splits `s` into its words.
pub fn split_words(s: &[char]) -> (r: Vec<Vec<char>>)
    ensures
        r@.len() == words(s@).len(),
        forall|i: int| 0 <= i < r@.len() ==> #[trigger] r@[i]@ == words(s@)[i],
{
    let mut r: Vec<Vec<char>> = Vec::new();
    let mut i: usize = 0;
    assert(s@.subrange(0, 0) =~= Seq::<char>::empty());
    while i < s.len()
        invariant
            i <= s@.len(),
            r@.len() == words(s@.subrange(0, i as int)).len(),
            forall|k: int| 0 <= k < r@.len() ==> #[trigger] r@[k]@ == words(
                s@.subrange(0, i as int),
            )[k],
        decreases s@.len() - i,
    {
        let ghost prev = words(s@.subrange(0, i as int));
        let ghost cur = s@.subrange(0, i + 1);
        assert(cur.drop_last() == s@.subrange(0, i as int));
        assert(cur.last() == s@[i as int]);
        let c = s[i];
        if !char_is_ws(c) {
            if i >= 1 && !char_is_ws(s[i - 1]) {
                assert(cur[cur.len() - 2] == s@[i - 1]);
                proof {
                    lemma_words_nonempty(s@.subrange(0, i as int));
                }
                let last = r.len() - 1;
                let mut w = r.pop().unwrap();
                w.push(c);
                r.push(w);
                assert(r@[last as int]@ == prev.last().push(c));
            } else {
                let mut w: Vec<char> = Vec::new();
                w.push(c);
                r.push(w);
                assert(r@.last()@ == seq![c]);
            }
        }
        i = i + 1;
        assert forall|k: int| 0 <= k < r@.len() implies #[trigger] r@[k]@ == words(
            s@.subrange(0, i as int),
        )[k] by {}
    }
    assert(s@.subrange(0, s@.len() as int) == s@);
    r
}

/// Whether a byte is an ASCII letter or digit: the bytes that `NON_ALPHANUMERIC` leaves
/// unencoded.
pub open spec fn is_alnum_byte(b: u8) -> bool {
    (48 <= b <= 57) || (65 <= b <= 90) || (97 <= b <= 122)
}

/// The upper-case hexadecimal digit of a value below sixteen.
pub open spec fn hex_digit(v: int) -> char {
    if v < 10 {
        (48 + v) as char
    } else {
        (55 + v) as char
    }
}

/// The text that percent-encoding gives for one byte: the byte itself when it is a letter
/// or digit, else `%` and its two upper-case hexadecimal digits.
pub open spec fn encode_byte(b: u8) -> Seq<char> {
    if is_alnum_byte(b) {
        seq![b as char]
    } else {
        seq!['%', hex_digit((b / 16) as int), hex_digit((b % 16) as int)]
    }
}

/// Percent-encoding of a byte sequence, byte by byte.
pub open spec fn percent_encode_bytes(bytes: Seq<u8>) -> Seq<char>
    decreases bytes.len(),
{
    if bytes.len() == 0 {
        seq![]
    } else {
        encode_byte(bytes[0]) + percent_encode_bytes(bytes.drop_first())
    }
}

/// Text with every byte of its UTF-8 encoding outside `[0-9A-Za-z]` percent-encoded
/// (`percent_encode(.., NON_ALPHANUMERIC)`).
pub open spec fn percent_encoded(s: Seq<char>) -> Seq<char> {
    percent_encode_bytes(encode_utf8(s))
}

/// The value of a hexadecimal digit (either case), `None` for any other byte.
pub open spec fn hex_value(b: u8) -> Option<int> {
    if 48 <= b <= 57 {
        Some(b - 48)
    } else if 65 <= b <= 70 {
        Some(b - 55)
    } else if 97 <= b <= 102 {
        Some(b - 87)
    } else {
        None
    }
}

/// Percent-decoding of a byte sequence: each `%` followed by two hexadecimal digits
/// becomes the byte they name; every other byte stays.
pub open spec fn percent_decode_bytes(bytes: Seq<u8>) -> Seq<u8>
    decreases bytes.len(),
{
    if bytes.len() == 0 {
        seq![]
    } else if bytes[0] == 37 && bytes.len() >= 3 && hex_value(bytes[1]) is Some && hex_value(
        bytes[2],
    ) is Some {
        seq![(hex_value(bytes[1])->0 * 16 + hex_value(bytes[2])->0) as u8] + percent_decode_bytes(
            bytes.skip(3),
        )
    } else {
        seq![bytes[0]] + percent_decode_bytes(bytes.drop_first())
    }
}

/// Text that percent-decoding gives, or `None` when the decoded bytes are not UTF-8
/// (`percent_decode_str(..).decode_utf8()`).
pub open spec fn percent_decoded_strict(s: Seq<char>) -> Option<Seq<char>> {
    let b = percent_decode_bytes(encode_utf8(s));
    if valid_utf8(b) {
        Some(decode_utf8(b))
    } else {
        None
    }
}

/// Text that percent-decoding gives, invalid UTF-8 replaced by U+FFFD
/// (`percent_decode_str(..).decode_utf8_lossy()`).
pub uninterp spec fn percent_decoded_lossy(s: Seq<char>) -> Seq<char>;

/// Calls `percent_encoding::percent_decode_str(s).decode_utf8_lossy()`: the result is
/// [`percent_decoded_lossy`] of `s`, and it is the decoded text itself when that is valid
/// UTF-8; which replacement characters stand for invalid bytes is not stated.
#[verifier::external_body]
fn percent_decode_lossy(s: &str) -> (r: String)
    ensures
        r@ == percent_decoded_lossy(s@),
        percent_decoded_strict(s@) matches Some(t) ==> r@ == t,
{
    percent_encoding::percent_decode_str(s).decode_utf8_lossy().to_string()
}

/// Calls `percent_encoding::percent_decode_str(s).decode_utf8()`: the result is
/// [`percent_decoded_strict`] of `s`.
#[verifier::external_body]
fn percent_decode_utf8(s: &str) -> (r: Option<String>)
    ensures
        match r {
            Some(t) => percent_decoded_strict(s@) == Some(t@),
            None => percent_decoded_strict(s@) is None,
        },
{
    match percent_encoding::percent_decode_str(s).decode_utf8() {
        Ok(t) => Some(t.to_string()),
        Err(_) => None,
    }
}

/// Calls `percent_encoding::percent_encode(s.as_bytes(), NON_ALPHANUMERIC)`: the result is
/// [`percent_encoded`] of `s`.
#[verifier::external_body]
fn percent_encode_all(s: &str) -> (r: String)
    ensures
        r@ == percent_encoded(s@),
{
    percent_encoding::percent_encode(s.as_bytes(), percent_encoding::NON_ALPHANUMERIC).to_string()
}

/// Decodes a percent-encoded address, replacing invalid UTF-8.
pub fn decode(url: &str) -> (r: String)
    ensures
        r@ == percent_decoded_lossy(url@),
        percent_decoded_strict(url@) matches Some(t) ==> r@ == t,
{
    percent_decode_lossy(url)
}

/// Percent-encodes every byte that is not an ASCII letter or digit.
pub fn encode(url: &str) -> (r: String)
    ensures
        r@ == percent_encoded(url@),
{
    percent_encode_all(url)
}

/// The bytes of a text whose characters are all ASCII.
pub open spec fn ascii_bytes(s: Seq<char>) -> Seq<u8> {
    Seq::new(s.len(), |i: int| s[i] as u8)
}

proof fn lemma_encode_byte_ascii(b: u8)
    ensures
        is_ascii_chars(encode_byte(b)),
        ascii_bytes(encode_byte(b)) == (if is_alnum_byte(b) {
            seq![b]
        } else {
            seq![37u8, hex_digit((b / 16) as int) as u8, hex_digit((b % 16) as int) as u8]
        }),
{
    let e = encode_byte(b);
    if is_alnum_byte(b) {
        assert((b as char) as u8 == b);
        assert(ascii_bytes(e) =~= seq![b]);
    } else {
        assert(ascii_bytes(e) =~= seq![37u8, hex_digit((b / 16) as int) as u8, hex_digit((b % 16) as int) as u8]);
    }
}

proof fn lemma_hex_round_trip(v: int)
    requires
        0 <= v < 16,
    ensures
        hex_value(hex_digit(v) as u8) == Some(v),
{
}

proof fn lemma_percent_encode_bytes_ascii(bytes: Seq<u8>)
    ensures
        is_ascii_chars(percent_encode_bytes(bytes)),
    decreases bytes.len(),
{
    if bytes.len() > 0 {
        lemma_encode_byte_ascii(bytes[0]);
        lemma_percent_encode_bytes_ascii(bytes.drop_first());
        let e = encode_byte(bytes[0]);
        let rest = percent_encode_bytes(bytes.drop_first());
        assert forall|i: int| 0 <= i < (e + rest).len() implies '\0' <= #[trigger] (e + rest)[i]
            <= '\u{7f}' by {
            if i < e.len() {
                assert((e + rest)[i] == e[i]);
            } else {
                assert((e + rest)[i] == rest[i - e.len()]);
            }
        }
    }
}

proof fn lemma_decode_of_encoded_bytes(bytes: Seq<u8>)
    ensures
        percent_decode_bytes(ascii_bytes(percent_encode_bytes(bytes))) == bytes,
    decreases bytes.len(),
{
    if bytes.len() == 0 {
        assert(ascii_bytes(percent_encode_bytes(bytes)) =~= Seq::<u8>::empty());
    } else {
        let b = bytes[0];
        let e = encode_byte(b);
        let rest = percent_encode_bytes(bytes.drop_first());
        lemma_encode_byte_ascii(b);
        lemma_decode_of_encoded_bytes(bytes.drop_first());
        let all = ascii_bytes(e + rest);
        assert(all =~= ascii_bytes(e) + ascii_bytes(rest));
        if is_alnum_byte(b) {
            assert(all.drop_first() =~= ascii_bytes(rest));
            assert(percent_decode_bytes(all) == seq![b] + bytes.drop_first());
        } else {
            lemma_hex_round_trip((b / 16) as int);
            lemma_hex_round_trip((b % 16) as int);
            assert(all.skip(3) =~= ascii_bytes(rest));
            assert(((b / 16) * 16 + b % 16) as u8 == b);
            assert(percent_decode_bytes(all) == seq![b] + bytes.drop_first());
        }
        assert(seq![b] + bytes.drop_first() =~= bytes);
    }
}

/// Percent-decoding undoes percent-encoding: for every text `s`, the strict decoding of
/// `encode(s)` is `s` itself, so `decode(encode(s))` gives back `s`.
pub proof fn law_decode_inverts_encode(s: Seq<char>)
    ensures
        percent_decoded_strict(percent_encoded(s)) == Some(s),
{
    let e = percent_encode_bytes(encode_utf8(s));
    lemma_percent_encode_bytes_ascii(encode_utf8(s));
    is_ascii_chars_encode_utf8(e);
    assert(encode_utf8(e) =~= ascii_bytes(e));
    lemma_decode_of_encoded_bytes(encode_utf8(s));
    encode_utf8_valid_utf8(s);
    encode_utf8_decode_utf8(s);
}

/// What the web interface answers to a request.
#[derive(Debug)]
pub enum WebRoute {
    /// The request line has fewer than two words.
    Invalid,
    /// Download the manga at `url` (already decoded) under the handle `handle_id`.
    Download { url: String, handle_id: String },
    /// A download request without a `url` parameter.
    DownloadWithoutUrl,
    /// A bundled resource.
    Resource(String),
    /// A resource request without a `path` parameter: nothing is answered.
    ResourceWithoutPath,
    /// Random images of the downloaded chapters.
    Confetti,
    /// Progress of the download with handle `id`.
    Progress(String),
    /// A progress request without an `id` parameter.
    ProgressWithoutId,
    /// The version of the program.
    Version,
    /// End the program.
    End,
    /// The main page.
    Main,
    /// Any other address.
    NotFound,
}

/// Mathematical form of [`WebRoute`].
pub enum WebRouteView {
    Invalid,
    Download { url: Seq<char>, handle_id: Seq<char> },
    DownloadWithoutUrl,
    Resource(Seq<char>),
    ResourceWithoutPath,
    Confetti,
    Progress(Seq<char>),
    ProgressWithoutId,
    Version,
    End,
    Main,
    NotFound,
}

impl View for WebRoute {
    type V = WebRouteView;

    open spec fn view(&self) -> WebRouteView {
        match self {
            WebRoute::Invalid => WebRouteView::Invalid,
            WebRoute::Download { url, handle_id } => WebRouteView::Download {
                url: url@,
                handle_id: handle_id@,
            },
            WebRoute::DownloadWithoutUrl => WebRouteView::DownloadWithoutUrl,
            WebRoute::Resource(p) => WebRouteView::Resource(p@),
            WebRoute::ResourceWithoutPath => WebRouteView::ResourceWithoutPath,
            WebRoute::Confetti => WebRouteView::Confetti,
            WebRoute::Progress(id) => WebRouteView::Progress(id@),
            WebRoute::ProgressWithoutId => WebRouteView::ProgressWithoutId,
            WebRoute::Version => WebRouteView::Version,
            WebRoute::End => WebRouteView::End,
            WebRoute::Main => WebRouteView::Main,
            WebRoute::NotFound => WebRouteView::NotFound,
        }
    }
}

/// The route of a web-interface request whose request line has the words `parts`.
pub open spec fn web_route_spec(parts: Seq<Seq<char>>) -> WebRouteView {
    if parts.len() < 2 {
        WebRouteView::Invalid
    } else {
        let path = parts[1];
        let params = query_params(path);
        if is_prefix("/manga?"@, path) && contains_sub(path, "url="@) {
            match query_value(params, "url"@) {
                Some(u) => WebRouteView::Download {
                    url: percent_decoded_lossy(u),
                    handle_id: match query_value(params, "id"@) {
                        Some(id) => id,
                        None => "0"@,
                    },
                },
                None => WebRouteView::DownloadWithoutUrl,
            }
        } else if is_prefix("/__get__?"@, path) {
            match query_value(params, "path"@) {
                Some(p) => WebRouteView::Resource(p),
                None => WebRouteView::ResourceWithoutPath,
            }
        } else if is_prefix("/__confetti__"@, path) {
            WebRouteView::Confetti
        } else if is_prefix("/manga-result"@, path) {
            match query_value(params, "id"@) {
                Some(id) => WebRouteView::Progress(id),
                None => WebRouteView::ProgressWithoutId,
            }
        } else if is_prefix("/__version__"@, path) {
            WebRouteView::Version
        } else if is_prefix("/end"@, path) {
            WebRouteView::End
        } else if path == "/"@ {
            WebRouteView::Main
        } else {
            WebRouteView::NotFound
        }
    }
}

/// Whether `s` starts with the literal `p`.
fn starts_with_str(s: &Vec<char>, p: &str) -> (r: bool)
    ensures
        r == is_prefix(p@, s@),
{
    let pc = str_chars(p);
    chars_starts_with(s.as_slice(), pc.as_slice())
}

/// The words of a request line as string slices' owners.
fn request_words(request: &str) -> (r: Vec<String>)
    ensures
        r@.len() == words(request@).len(),
        forall|i: int| 0 <= i < r@.len() ==> #[trigger] r@[i]@ == words(request@)[i],
{
    let chars = str_chars(request);
    let ws = split_words(chars.as_slice());
    let mut r: Vec<String> = Vec::new();
    let mut i: usize = 0;
    while i < ws.len()
        invariant
            chars@ == request@,
            i <= ws@.len(),
            ws@.len() == words(request@).len(),
            forall|k: int| 0 <= k < ws@.len() ==> #[trigger] ws@[k]@ == words(request@)[k],
            r@.len() == i,
            forall|k: int| 0 <= k < i ==> #[trigger] r@[k]@ == words(request@)[k],
        decreases ws@.len() - i,
    {
        r.push(chars_to_string(ws[i].as_slice()));
        i = i + 1;
    }
    r
}

/// The query parameters of `target`, taken as the second word of a request line.
fn target_params(target: &String) -> (r: Vec<crate::query::QueryParam>)
    ensures
        crate::query::params_view(r@) == query_params(target@),
{
    let mut parts: Vec<&str> = Vec::new();
    parts.push("");
    parts.push(target.as_str());
    get_query(&parts)
}

/// Routes a web-interface request (the text of the request).
pub fn web_route(request: &str) -> (r: WebRoute)
    ensures
        r@ == web_route_spec(words(request@)),
{
    let parts = request_words(request);
    if parts.len() < 2 {
        return WebRoute::Invalid;
    }
    let path = str_chars(parts[1].as_str());
    let params = target_params(&parts[1]);
    let url_key = str_chars("url=");
    if starts_with_str(&path, "/manga?") && chars_contains(path.as_slice(), url_key.as_slice()) {
        match query_get(&params, "url") {
            Some(u) => {
                let handle_id = match query_get(&params, "id") {
                    Some(id) => id,
                    None => String::from_str("0"),
                };
                WebRoute::Download { url: decode(u.as_str()), handle_id }
            },
            None => WebRoute::DownloadWithoutUrl,
        }
    } else if starts_with_str(&path, "/__get__?") {
        match query_get(&params, "path") {
            Some(p) => WebRoute::Resource(p),
            None => WebRoute::ResourceWithoutPath,
        }
    } else if starts_with_str(&path, "/__confetti__") {
        WebRoute::Confetti
    } else if starts_with_str(&path, "/manga-result") {
        match query_get(&params, "id") {
            Some(id) => WebRoute::Progress(id),
            None => WebRoute::ProgressWithoutId,
        }
    } else if starts_with_str(&path, "/__version__") {
        WebRoute::Version
    } else if starts_with_str(&path, "/end") {
        WebRoute::End
    } else {
        let root = str_chars("/");
        if chars_eq(path.as_slice(), root.as_slice()) {
            WebRoute::Main
        } else {
            WebRoute::NotFound
        }
    }
}


/// What the library server does with a request.
#[derive(Debug)]
pub enum ServerRoute {
    /// Nothing is answered.
    Ignore,
    /// List the directory `path` (not yet decoded).
    Search(String),
    /// Send the first image of the archive or the file named by `path` (not yet decoded).
    Preview(String),
    /// Zip and send the folder named by `path` (not yet decoded).
    Download(String),
    /// The version of the program.
    Version,
    /// The bundled 404 image.
    Error404Image,
    /// A resource that the server does not hold.
    UnknownResource,
    /// The main page.
    Main,
    /// A file under the working directory, by the request path (not yet decoded).
    File(String),
}

/// Mathematical form of [`ServerRoute`].
pub enum ServerRouteView {
    Ignore,
    Search(Seq<char>),
    Preview(Seq<char>),
    Download(Seq<char>),
    Version,
    Error404Image,
    UnknownResource,
    Main,
    File(Seq<char>),
}

impl View for ServerRoute {
    type V = ServerRouteView;

    open spec fn view(&self) -> ServerRouteView {
        match self {
            ServerRoute::Ignore => ServerRouteView::Ignore,
            ServerRoute::Search(p) => ServerRouteView::Search(p@),
            ServerRoute::Preview(p) => ServerRouteView::Preview(p@),
            ServerRoute::Download(p) => ServerRouteView::Download(p@),
            ServerRoute::Version => ServerRouteView::Version,
            ServerRoute::Error404Image => ServerRouteView::Error404Image,
            ServerRoute::UnknownResource => ServerRouteView::UnknownResource,
            ServerRoute::Main => ServerRouteView::Main,
            ServerRoute::File(p) => ServerRouteView::File(p@),
        }
    }
}

/// The route of a library-server request whose request line has the words `parts`.
pub open spec fn server_route_spec(parts: Seq<Seq<char>>) -> ServerRouteView {
    if parts.len() < 2 {
        ServerRouteView::Ignore
    } else {
        let path = parts[1];
        let params = query_params(path);
        if is_prefix("/__search__"@, path) {
            if is_prefix("/__search__?"@, path) {
                match query_value(params, "path"@) {
                    Some(p) => ServerRouteView::Search(p),
                    None => ServerRouteView::Search("."@),
                }
            } else {
                ServerRouteView::Search("."@)
            }
        } else if is_prefix("/__preview__?"@, path) {
            match query_value(params, "path"@) {
                Some(p) => ServerRouteView::Preview(p),
                None => ServerRouteView::Ignore,
            }
        } else if is_prefix("/__download__?"@, path) {
            match query_value(params, "path"@) {
                Some(p) => ServerRouteView::Download(p),
                None => ServerRouteView::Ignore,
            }
        } else if is_prefix("/__version__"@, path) {
            ServerRouteView::Version
        } else if is_prefix("/__get__?"@, path) {
            match query_value(params, "path"@) {
                Some(p) => if p == "error_404"@ {
                    ServerRouteView::Error404Image
                } else {
                    ServerRouteView::UnknownResource
                },
                None => ServerRouteView::Ignore,
            }
        } else if path == "/"@ {
            ServerRouteView::Main
        } else {
            ServerRouteView::File(path)
        }
    }
}

/// Routes a library-server request (its request line).
pub fn server_route(request_line: &str) -> (r: ServerRoute)
    ensures
        r@ == server_route_spec(words(request_line@)),
        words(request_line@).len() >= 2 && is_prefix("/__download__?"@, words(request_line@)[1])
            && query_value(query_params(words(request_line@)[1]), "path"@) is Some ==> r@
            == ServerRouteView::Download(query_value(query_params(words(request_line@)[1]), "path"@)->0),
        r matches ServerRoute::Preview(p) ==> words(request_line@).len() >= 2 && is_prefix(
            "/__preview__?"@,
            words(request_line@)[1],
        ) && query_value(query_params(words(request_line@)[1]), "path"@) == Some(p@),
        r matches ServerRoute::Download(p) ==> words(request_line@).len() >= 2 && is_prefix(
            "/__download__?"@,
            words(request_line@)[1],
        ) && query_value(query_params(words(request_line@)[1]), "path"@) == Some(p@),
{
    proof {
        crate::laws::law_server_download_route(words(request_line@));
    }
    let parts = request_words(request_line);
    if parts.len() < 2 {
        return ServerRoute::Ignore;
    }
    let path = str_chars(parts[1].as_str());
    let params = target_params(&parts[1]);
    if starts_with_str(&path, "/__search__") {
        if starts_with_str(&path, "/__search__?") {
            match query_get(&params, "path") {
                Some(p) => ServerRoute::Search(p),
                None => ServerRoute::Search(String::from_str(".")),
            }
        } else {
            ServerRoute::Search(String::from_str("."))
        }
    } else if starts_with_str(&path, "/__preview__?") {
        match query_get(&params, "path") {
            Some(p) => ServerRoute::Preview(p),
            None => ServerRoute::Ignore,
        }
    } else if starts_with_str(&path, "/__download__?") {
        match query_get(&params, "path") {
            Some(p) => ServerRoute::Download(p),
            None => ServerRoute::Ignore,
        }
    } else if starts_with_str(&path, "/__version__") {
        ServerRoute::Version
    } else if starts_with_str(&path, "/__get__?") {
        match query_get(&params, "path") {
            Some(p) => {
                if crate::text::str_eq(p.as_str(), "error_404") {
                    ServerRoute::Error404Image
                } else {
                    ServerRoute::UnknownResource
                }
            },
            None => ServerRoute::Ignore,
        }
    } else {
        let root = str_chars("/");
        if chars_eq(path.as_slice(), root.as_slice()) {
            ServerRoute::Main
        } else {
            ServerRoute::File(chars_to_string(path.as_slice()))
        }
    }
}

/// The sequence with every `./` removed, scanning left to right.
pub open spec fn remove_dot_slash(s: Seq<char>) -> Seq<char>
    decreases s.len(),
{
    if s.len() == 0 {
        s
    } else if s.len() >= 2 && s[0] == '.' && s[1] == '/' {
        remove_dot_slash(s.subrange(2, s.len() as int))
    } else {
        seq![s[0]] + remove_dot_slash(s.drop_first())
    }
}

/// The sequence with every `/` removed.
pub open spec fn remove_slash(s: Seq<char>) -> Seq<char>
    decreases s.len(),
{
    if s.len() == 0 {
        s
    } else if s[0] == '/' {
        remove_slash(s.drop_first())
    } else {
        seq![s[0]] + remove_slash(s.drop_first())
    }
}

/// The local file that a preview request names: `.\<path>` decoded, then without `./`
/// and `/`; `None` when the decoded bytes are not UTF-8.
pub open spec fn preview_file_spec(path: Seq<char>) -> Option<Seq<char>> {
    match percent_decoded_strict(".\\"@ + path) {
        Some(d) => Some(remove_slash(remove_dot_slash(d))),
        None => None,
    }
}

fn remove_dot_slash_chars(s: &[char]) -> (r: Vec<char>)
    ensures
        r@ == remove_dot_slash(s@),
{
    let mut r: Vec<char> = Vec::new();
    let mut i: usize = 0;
    assert(s@.subrange(0, s@.len() as int) == s@);
    assert(r@ + remove_dot_slash(s@) == remove_dot_slash(s@));
    while i < s.len()
        invariant
            i <= s@.len(),
            remove_dot_slash(s@) == r@ + remove_dot_slash(s@.subrange(i as int, s@.len() as int)),
        decreases s@.len() - i,
    {
        let ghost rest = s@.subrange(i as int, s@.len() as int);
        if i + 1 < s.len() && s[i] == '.' && s[i + 1] == '/' {
            assert(rest.subrange(2, rest.len() as int) == s@.subrange(i + 2, s@.len() as int));
            i = i + 2;
        } else {
            assert(rest.drop_first() == s@.subrange(i + 1, s@.len() as int));
            let ghost before = r@;
            r.push(s[i]);
            assert(before + (seq![s@[i as int]] + remove_dot_slash(rest.drop_first())) == r@
                + remove_dot_slash(rest.drop_first()));
            i = i + 1;
        }
    }
    assert(remove_dot_slash(s@.subrange(i as int, s@.len() as int)) =~= Seq::<char>::empty());
    assert(r@ + Seq::<char>::empty() == r@);
    r
}

fn remove_slash_chars(s: &[char]) -> (r: Vec<char>)
    ensures
        r@ == remove_slash(s@),
{
    let mut r: Vec<char> = Vec::new();
    let mut i: usize = 0;
    assert(s@.subrange(0, s@.len() as int) == s@);
    assert(r@ + remove_slash(s@) == remove_slash(s@));
    while i < s.len()
        invariant
            i <= s@.len(),
            remove_slash(s@) == r@ + remove_slash(s@.subrange(i as int, s@.len() as int)),
        decreases s@.len() - i,
    {
        let ghost rest = s@.subrange(i as int, s@.len() as int);
        assert(rest.drop_first() == s@.subrange(i + 1, s@.len() as int));
        if s[i] != '/' {
            let ghost before = r@;
            r.push(s[i]);
            assert(before + (seq![s@[i as int]] + remove_slash(rest.drop_first())) == r@
                + remove_slash(rest.drop_first()));
        }
        i = i + 1;
    }
    assert(remove_slash(s@.subrange(i as int, s@.len() as int)) =~= Seq::<char>::empty());
    assert(r@ + Seq::<char>::empty() == r@);
    r
}

/// The local file that a preview request names.
pub fn preview_file(path: &str) -> (r: Option<String>)
    ensures
        match preview_file_spec(path@) {
            Some(f) => r matches Some(s) && s@ == f,
            None => r is None,
        },
{
    let mut full = String::from_str(".\\");
    full.append(path);
    match percent_decode_utf8(full.as_str()) {
        Some(d) => {
            let dc = str_chars(d.as_str());
            let a = remove_dot_slash_chars(dc.as_slice());
            let b = remove_slash_chars(a.as_slice());
            Some(chars_to_string(b.as_slice()))
        },
        None => None,
    }
}

/// The folder and archive names of a download request: the decoded path without one
/// trailing `/`, and its last `/`-separated piece followed by `.zip`.
pub open spec fn download_names_spec(path: Seq<char>) -> Option<(Seq<char>, Seq<char>)> {
    match percent_decoded_strict(path) {
        Some(d) => {
            let folder = if d.len() > 0 && d.last() == '/' { d.drop_last() } else { d };
            Some((folder, split_on(folder, '/').last() + ".zip"@))
        },
        None => None,
    }
}

proof fn lemma_split_nonempty_route(s: Seq<char>, sep: char)
    ensures
        split_on(s, sep).len() >= 1,
    decreases s.len(),
{
    if s.len() > 0 {
        lemma_split_nonempty_route(s.drop_last(), sep);
    }
}

/// Folder and archive names for a download request.
pub fn download_names(path: &str) -> (r: Option<(String, String)>)
    ensures
        match download_names_spec(path@) {
            Some((folder, archive)) => r matches Some(p) && p.0@ == folder && p.1@ == archive,
            None => r is None,
        },
{
    match percent_decode_utf8(path) {
        Some(d) => {
            let mut dc = str_chars(d.as_str());
            if dc.len() > 0 && dc[dc.len() - 1] == '/' {
                dc.pop();
            }
            let pieces = split_chars(dc.as_slice(), '/');
            proof {
                lemma_split_nonempty_route(dc@, '/');
            }
            let mut archive = chars_to_string(pieces[pieces.len() - 1].as_slice());
            archive.append(".zip");
            Some((chars_to_string(dc.as_slice()), archive))
        },
        None => None,
    }
}

/// The local path and download name of a file request: `.` followed by the decoded path,
/// and its last `/`-separated piece.
pub open spec fn served_file_spec(path: Seq<char>) -> Option<(Seq<char>, Seq<char>)> {
    match percent_decoded_strict(path) {
        Some(d) => {
            let local = "."@ + d;
            Some((local, split_on(local, '/').last()))
        },
        None => None,
    }
}

/// Local path and download name for a file request.
pub fn served_file(path: &str) -> (r: Option<(String, String)>)
    ensures
        match served_file_spec(path@) {
            Some((local, name)) => r matches Some(p) && p.0@ == local && p.1@ == name,
            None => r is None,
        },
{
    match percent_decode_utf8(path) {
        Some(d) => {
            let mut local = String::from_str(".");
            local.append(d.as_str());
            let lc = str_chars(local.as_str());
            let pieces = split_chars(lc.as_slice(), '/');
            proof {
                lemma_split_nonempty_route(lc@, '/');
            }
            let name = chars_to_string(pieces[pieces.len() - 1].as_slice());
            Some((local, name))
        },
        None => None,
    }
}

} // verus!
