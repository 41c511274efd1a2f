//! Which images a chapter download fetches, in which batches, and under which names.

use vstd::prelude::*;
use vstd::string::*;
use crate::text::{dec, dec_string, process_filename, str_chars, strip_forbidden, chars_to_string};

verus! {

/// The image list for the chosen quality, or the other list when that one is empty.
pub open spec fn pick_images_spec(saver: bool, data: Seq<String>, data_saver: Option<Vec<String>>) -> Seq<String> {
    let saver_list = match data_saver {
        Some(v) => v@,
        None => Seq::empty(),
    };
    let first = if saver { saver_list } else { data };
    if first.len() == 0 {
        if saver { data } else { saver_list }
    } else {
        first
    }
}

fn clone_strings(v: &Vec<String>) -> (r: Vec<String>)
    ensures
        r@ == v@,
{
    let mut r: Vec<String> = Vec::new();
    let mut i: usize = 0;
    while i < v.len()
        invariant
            i <= v@.len(),
            r@ == v@.subrange(0, i as int),
        decreases v@.len() - i,
    {
        r.push(v[i].clone());
        i = i + 1;
        assert(r@ == v@.subrange(0, i as int));
    }
    assert(v@.subrange(0, v@.len() as int) == v@);
    r
}

/// The file names of a chapter's pages in the chosen quality (`saver`: the data-saver
/// list), falling back to the other quality when the chosen list is empty.
pub fn pick_images(saver: bool, data: &Vec<String>, data_saver: &Option<Vec<String>>) -> (r: Vec<String>)
    ensures
        r@ == pick_images_spec(saver, data@, *data_saver),
{
    let saver_list = match data_saver {
        Some(v) => clone_strings(v),
        None => Vec::new(),
    };
    let first = if saver { clone_strings(&saver_list) } else { clone_strings(data) };
    if first.len() == 0 {
        if saver { clone_strings(data) } else { saver_list }
    } else {
        first
    }
}

/// The `(start, end)` page ranges of the download batches: `count` pages in runs of
/// `per_batch`, the last run shorter.
pub open spec fn batches_spec(count: nat, per_batch: nat) -> Seq<(int, int)>
    recommends
        per_batch > 0,
{
    let n = count / per_batch + if count % per_batch == 0 { 0nat } else { 1nat };
    Seq::new(
        n as nat,
        |i: int|
            (i * per_batch, if (i + 1) * per_batch < count { (i + 1) * per_batch } else { count as int }),
    )
}

/// Splits `count` pages into batches of `per_batch`.
pub fn batches(count: usize, per_batch: usize) -> (r: Vec<(usize, usize)>)
    requires
        per_batch > 0,
        count <= 0x100_0000,
    ensures
        r@.len() == batches_spec(count as nat, per_batch as nat).len(),
        forall|i: int|
            0 <= i < r@.len() ==> (#[trigger] r@[i]).0 as int == batches_spec(
                count as nat,
                per_batch as nat,
            )[i].0 && r@[i].1 as int == batches_spec(count as nat, per_batch as nat)[i].1,
{
    let n = count / per_batch + if count % per_batch == 0 { 0 } else { 1 };
    let ghost spec = batches_spec(count as nat, per_batch as nat);
    assert(spec.len() == n);
    let mut r: Vec<(usize, usize)> = Vec::new();
    let mut remaining = count;
    let mut i: usize = 0;
    while i < n
        invariant
            n == spec.len(),
            spec == batches_spec(count as nat, per_batch as nat),
            per_batch > 0,
            count <= 0x100_0000,
            n == count / per_batch + if count % per_batch == 0 { 0nat } else { 1nat },
            i <= n,
            r@.len() == i,
            remaining as int == if i * per_batch < count { count - i * per_batch } else { 0 },
            forall|k: int|
                0 <= k < i ==> (#[trigger] r@[k]).0 as int == spec[k].0 && r@[k].1 as int
                    == spec[k].1,
        decreases n - i,
    {
        assert(i * per_batch < count) by (nonlinear_arith)
            requires
                i < n,
                n == count / per_batch + if count % per_batch == 0 { 0nat } else { 1nat },
                per_batch > 0,
        ;
        assert((i + 1) * per_batch <= count + per_batch) by (nonlinear_arith)
            requires
                i * per_batch < count,
        ;
        assert(i * per_batch <= 0x100_0000);
        let start = i * per_batch;
        let end;
        if remaining > per_batch {
            end = (i + 1) * per_batch;
            remaining = remaining - per_batch;
        } else {
            end = count;
            remaining = 0;
        }
        assert((i + 1) * per_batch == i * per_batch + per_batch) by (nonlinear_arith);
        r.push((start, end));
        i = i + 1;
    }
    r
}

/// `<page>` padded with spaces to three characters.
pub open spec fn page_label_spec(page: nat) -> Seq<char> {
    let d = dec(page);
    d + Seq::new((3 - d.len()) as nat, |i: int| ' ')
}

proof fn lemma_dec_len(n: nat)
    ensures
        n < 10 ==> dec(n).len() == 1,
        10 <= n < 100 ==> dec(n).len() == 2,
        100 <= n < 1000 ==> dec(n).len() == 3,
{
    if n >= 10 {
        assert(dec(n) == dec(n / 10).push(crate::text::digit_char(n % 10)));
        if n >= 100 {
            assert(dec(n / 10) == dec(n / 100).push(crate::text::digit_char((n / 10) % 10)));
        }
    }
}

/// The page number padded to three characters, as the progress lines show it; pages from
/// 1000 on have no label (padding them would underflow).
pub fn page_label(page: usize) -> (r: String)
    requires
        page < 1000,
    ensures
        r@ == page_label_spec(page as nat),
{
    let mut s = dec_string(page as u64);
    proof {
        lemma_dec_len(page as nat);
    }
    let ghost d = s@;
    let mut k: usize = s.as_str().unicode_len();
    let ghost pad_len = (3 - d.len()) as nat;
    while k < 3
        invariant
            d.len() <= k <= 3,
            s@ == d + Seq::new((k - d.len()) as nat, |i: int| ' '),
            d == dec(page as nat),
        decreases 3 - k,
    {
        crate::text::push_char(&mut s, ' ');
        k = k + 1;
        assert(s@ =~= d + Seq::new((k - d.len()) as nat, |i: int| ' '));
    }
    s
}

/// The names under which one page is saved.
pub struct ImageNames {
    /// The chapter's cache folder.
    pub folder_name: String,
    /// The page's file name.
    pub file_name: String,
    /// The short name shown in progress lines.
    pub file_name_brief: String,
    /// `.cache/<folder_name>/<file_name>`.
    pub full_path: String,
}

/// ` - <title>` when the title is not empty.
pub open spec fn title_suffix(title: Seq<char>) -> Seq<char> {
    if title.len() != 0 { " - "@ + title } else { Seq::empty() }
}

/// `<manga> - <vol>Ch.<chapter>[ - <title>]`.
pub open spec fn chapter_base(manga: Seq<char>, vol: Seq<char>, chapter: Seq<char>, title: Seq<char>) -> Seq<char> {
    manga + " - "@ + vol + "Ch."@ + chapter + title_suffix(title)
}

/// The names of page `page` of a chapter.
pub fn image_names(manga_name: &str, vol: &str, chapter: &str, title: &str, page: usize) -> (r: ImageNames)
    ensures
        r.folder_name@ == strip_forbidden(chapter_base(manga_name@, vol@, chapter@, title@)),
        r.file_name@ == strip_forbidden(
            chapter_base(manga_name@, vol@, chapter@, title@) + " - "@ + dec(page as nat) + ".jpg"@,
        ),
        r.file_name_brief@ == strip_forbidden(vol@ + "Ch."@ + chapter@ + " - "@ + dec(page as nat) + ".jpg"@),
        r.full_path@ == ".cache/"@ + r.folder_name@ + "/"@ + r.file_name@,
{
    let mut base = String::from_str(manga_name);
    base.append(" - ");
    base.append(vol);
    base.append("Ch.");
    base.append(chapter);
    if !title.is_empty() {
        base.append(" - ");
        base.append(title);
    }
    assert(base@ =~= chapter_base(manga_name@, vol@, chapter@, title@));
    let page_text = dec_string(page as u64);
    let folder_name = process_filename(base.as_str());
    let mut file = base.clone();
    file.append(" - ");
    file.append(page_text.as_str());
    file.append(".jpg");
    let file_name = process_filename(file.as_str());
    let mut brief = String::from_str(vol);
    brief.append("Ch.");
    brief.append(chapter);
    brief.append(" - ");
    brief.append(page_text.as_str());
    brief.append(".jpg");
    let file_name_brief = process_filename(brief.as_str());
    let mut full_path = String::from_str(".cache/");
    full_path.append(folder_name.as_str());
    full_path.append("/");
    full_path.append(file_name.as_str());
    ImageNames { folder_name, file_name, file_name_brief, full_path }
}

/// The image name without surrounding `"` characters (`trim_matches('"')`).
pub open spec fn trim_quotes_spec(s: Seq<char>) -> Seq<char>
    decreases s.len(),
{
    if s.len() > 0 && s[0] == '"' {
        trim_quotes_spec(s.drop_first())
    } else if s.len() > 0 && s.last() == '"' {
        trim_quotes_spec(s.drop_last())
    } else {
        s
    }
}

/// Removes leading and trailing `"` characters.
pub fn trim_quotes(s: &str) -> (r: String)
    ensures
        r@ == trim_quotes_spec(s@),
{
    let chars = str_chars(s);
    let n = chars.len();
    let mut lo: usize = 0;
    let mut hi: usize = n;
    assert(chars@.subrange(0, n as int) == chars@);
    while lo < hi && (chars[lo] == '"' || chars[hi - 1] == '"')
        invariant
            lo <= hi <= n,
            n == chars@.len(),
            chars@ == s@,
            trim_quotes_spec(s@) == trim_quotes_spec(chars@.subrange(lo as int, hi as int)),
        decreases hi - lo,
    {
        let ghost cur = chars@.subrange(lo as int, hi as int);
        if chars[lo] == '"' {
            assert(cur.drop_first() == chars@.subrange(lo + 1, hi as int));
            lo = lo + 1;
        } else {
            assert(cur.drop_last() == chars@.subrange(lo as int, hi - 1));
            hi = hi - 1;
        }
    }
    let mut r: Vec<char> = Vec::new();
    let mut i = lo;
    while i < hi
        invariant
            lo <= i <= hi <= n,
            n == chars@.len(),
            r@ == chars@.subrange(lo as int, i as int),
        decreases hi - i,
    {
        r.push(chars[i]);
        i = i + 1;
        assert(r@ == chars@.subrange(lo as int, i as int));
    }
    chars_to_string(r.as_slice())
}

/// Column where a progress bar of `count` cells starts on a screen `max_x` columns wide.
pub open spec fn progress_start_spec(max_x: u32, count: u32) -> int {
    if max_x / 3 < count / 2 { 1 } else { max_x / 3 - count / 2 }
}

/// Column where the progress bar of a chapter's pages starts.
pub fn progress_start(max_x: u32, count: u32) -> (r: u32)
    ensures
        r as int == progress_start_spec(max_x, count),
{
    if max_x / 3 < count / 2 {
        1
    } else {
        max_x / 3 - count / 2
    }
}

} // verus!
