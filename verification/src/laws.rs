//! Properties that hold of the library as a whole.

use vstd::prelude::*;
use vstd::string::*;
use crate::text::{is_forbidden_filename_char, strip_forbidden, trim, trim_start, trim_end, is_ws};
use crate::filename::{folder_name, FileName};
use crate::route::{server_route_spec, ServerRouteView};
use crate::query::{query_params, query_value};
use crate::text::is_prefix;
use crate::resolve::{language_check_spec, all_text, LangValue};
use crate::args::{ParserArgs, args_from_parsed};
use crate::metadata::or_empty;
use crate::title::{manga_name, shorten, cleaned_manga_name, TitleData};
use crate::metadata::{ChapterMetadata, index_of_id, lemma_index_of_id};
use crate::version::core_version;
use crate::args::{Args, ArgValue, Settings, changed, with_settings};
use crate::dat::{number_key, insert_by_key, sort_by_number, refreshed, without, new_chapters, number_known};
use crate::chapter::{chapter_view, chapters_view, action_spec, counts_downloaded, ChapterAction, ChapterPlan, ChapterState, ChapterFacts};
use crate::show::{ShowChoice, show_choice_spec, joined, trim_sep, listed_raw};
use crate::images::batches_spec;
use crate::logs::{text_le, insert_text, sorted_texts};
use crate::settings::{
    ResourceOpView, settings_ops_spec, settings_spec, db_folder, db_stat, db_backup, db_tutorial, is_flag, flag_value,
};

verus! {

/// A cleaned file name holds none of `< > : | ? * / \ "`, and cleaning it again changes
/// nothing.
pub proof fn law_filename_clean(s: Seq<char>)
    ensures
        forall|i: int| 0 <= i < strip_forbidden(s).len() ==> !is_forbidden_filename_char(
            #[trigger] strip_forbidden(s)[i],
        ),
        strip_forbidden(strip_forbidden(s)) == strip_forbidden(s),
    decreases s.len(),
{
    if s.len() > 0 {
        law_filename_clean(s.drop_last());
        let p = strip_forbidden(s.drop_last());
        if !is_forbidden_filename_char(s.last()) {
            let q = p.push(s.last());
            assert(q.drop_last() == p);
            assert forall|i: int| 0 <= i < q.len() implies !is_forbidden_filename_char(#[trigger] q[i]) by {
                if i < p.len() {
                    assert(q[i] == p[i]);
                }
            }
        }
    }
}

/// A manga name can stand in a file name: it holds none of the forbidden characters.
pub proof fn law_manga_name_clean(d: TitleData, lang: Seq<char>)
    ensures
        forall|i: int| 0 <= i < manga_name(d, lang).len() ==> !is_forbidden_filename_char(
            #[trigger] manga_name(d, lang)[i],
        ),
{
    law_filename_clean(shorten(cleaned_manga_name(d, lang)));
}

proof fn lemma_strip_forbidden_len(s: Seq<char>)
    ensures
        strip_forbidden(s).len() <= s.len(),
    decreases s.len(),
{
    if s.len() > 0 {
        lemma_strip_forbidden_len(s.drop_last());
    }
}

/// A manga name is at most seventy characters long, or seventy characters and the `__`
/// that marks a cut: 72 characters in all.
pub proof fn law_manga_name_length(d: TitleData, lang: Seq<char>)
    ensures
        manga_name(d, lang).len() <= 72,
{
    reveal_strlit("__");
    lemma_strip_forbidden_len(shorten(cleaned_manga_name(d, lang)));
}

proof fn lemma_distinct_index(chapters: Seq<ChapterMetadata>, k: int)
    requires
        0 <= k < chapters.len(),
        forall|i: int, j: int| 0 <= i < j < chapters.len() ==> chapters[i].id@ != chapters[j].id@,
    ensures
        index_of_id(chapters, chapters[k].id@) == Some(k),
{
    lemma_index_of_id(chapters, chapters[k].id@);
    match index_of_id(chapters, chapters[k].id@) {
        Some(i) => {
            if i < k {
                assert(chapters[i].id@ != chapters[k].id@);
            } else if i > k {
                assert(chapters[k].id@ != chapters[i].id@);
            }
        },
        None => {
            assert(chapters[k].id@ != chapters[k].id@);
        },
    }
}

/// In a chapter list whose ids are all different, the chapter before the next chapter
/// of a chapter is that chapter: the next of the chapter with id `id` is found at the
/// following position, so its previous is at the position of `id`.
pub proof fn law_next_then_previous(chapters: Seq<ChapterMetadata>, id: Seq<char>)
    requires
        forall|i: int, j: int| 0 <= i < j < chapters.len() ==> chapters[i].id@ != chapters[j].id@,
        index_of_id(chapters, id) matches Some(i) && i + 1 < chapters.len(),
    ensures
        index_of_id(chapters, chapters[index_of_id(chapters, id)->0 + 1].id@) == Some(
            index_of_id(chapters, id)->0 + 1,
        ),
        chapters[index_of_id(chapters, id)->0].id@ == id,
{
    lemma_index_of_id(chapters, id);
    let i = index_of_id(chapters, id)->0;
    lemma_distinct_index(chapters, i + 1);
}

/// In a chapter list whose ids are all different, the chapter after the previous
/// chapter of a chapter is that chapter.
pub proof fn law_previous_then_next(chapters: Seq<ChapterMetadata>, id: Seq<char>)
    requires
        forall|i: int, j: int| 0 <= i < j < chapters.len() ==> chapters[i].id@ != chapters[j].id@,
        index_of_id(chapters, id) matches Some(i) && i > 0,
    ensures
        index_of_id(chapters, chapters[index_of_id(chapters, id)->0 - 1].id@) == Some(
            index_of_id(chapters, id)->0 - 1,
        ),
        chapters[index_of_id(chapters, id)->0].id@ == id,
{
    lemma_index_of_id(chapters, id);
    let i = index_of_id(chapters, id)->0;
    lemma_distinct_index(chapters, i - 1);
}

/// A version without its pre-release part holds no `-`, begins the version, and loses
/// nothing more when the part is removed again.
pub proof fn law_core_version(v: Seq<char>)
    ensures
        !core_version(v).contains('-'),
        core_version(v).len() <= v.len(),
        core_version(v) == v.subrange(0, core_version(v).len() as int),
        core_version(core_version(v)) == core_version(v),
    decreases v.len(),
{
    if v.len() > 0 && v[0] != '-' {
        law_core_version(v.drop_first());
        let t = core_version(v.drop_first());
        let r = seq![v[0]] + t;
        assert(r == core_version(v));
        assert(r.drop_first() == t);
        if r.contains('-') {
            let k = choose|k: int| 0 <= k < r.len() && r[k] == '-';
            if k > 0 {
                assert(t[k - 1] == '-');
            }
        }
        assert(v.drop_first().subrange(0, t.len() as int) == v.subrange(1, t.len() as int + 1));
        assert(r =~= v.subrange(0, r.len() as int));
    } else if v.len() > 0 {
        assert(core_version(v) =~= Seq::<char>::empty());
    }
}

proof fn lemma_trim_start_no_ws(s: Seq<char>)
    ensures
        trim_start(s).len() == 0 || !is_ws(trim_start(s)[0]),
        trim_start(trim_start(s)) == trim_start(s),
    decreases s.len(),
{
    if s.len() > 0 && is_ws(s[0]) {
        lemma_trim_start_no_ws(s.drop_first());
    }
}

proof fn lemma_trim_end_keeps_start(s: Seq<char>)
    requires
        s.len() == 0 || !is_ws(s[0]),
    ensures
        trim_end(s).len() == 0 || !is_ws(trim_end(s)[0]),
        trim_end(s).len() == 0 || trim_end(s)[0] == s[0],
        trim_end(s).len() == 0 || !is_ws(trim_end(s).last()),
    decreases s.len(),
{
    if s.len() > 0 && is_ws(s.last()) {
        lemma_trim_end_keeps_start(s.drop_last());
    }
}

proof fn lemma_trim_end_idem(s: Seq<char>)
    requires
        s.len() == 0 || !is_ws(s.last()),
    ensures
        trim_end(s) == s,
{
}

proof fn lemma_trim_start_idem(s: Seq<char>)
    requires
        s.len() == 0 || !is_ws(s[0]),
    ensures
        trim_start(s) == s,
{
}

/// Trimming white space twice gives what trimming once gives.
pub proof fn law_trim_idempotent(s: Seq<char>)
    ensures
        trim(trim(s)) == trim(s),
{
    lemma_trim_start_no_ws(s);
    let a = trim_start(s);
    lemma_trim_end_keeps_start(a);
    let b = trim_end(a);
    lemma_trim_start_idem(b);
    lemma_trim_end_idem(b);
}

/// Applying saved settings sets the statistics and backup flags to the saved ones and
/// the download folder to the saved one only while it is still the default `.`;
/// nothing else changes.
#[verifier::rlimit(60)]
pub proof fn law_change_settings(args: Args, settings: Settings)
    ensures
        changed(
            changed(changed(args, "folder"@, ArgValue::Str(settings.folder)), "stat"@, ArgValue::Bool(settings.stat)),
            "backup"@,
            ArgValue::Bool(settings.backup),
        ) == with_settings(args, settings),
{
    lemma_change_folder(args, settings.folder);
    let a1 = changed(args, "folder"@, ArgValue::Str(settings.folder));
    lemma_change_stat(a1, settings.stat);
    let a2 = changed(a1, "stat"@, ArgValue::Bool(settings.stat));
    lemma_change_backup(a2, settings.backup);
}

proof fn lemma_change_folder(args: Args, folder: String)
    ensures
        changed(args, "folder"@, ArgValue::Str(folder)) == (Args {
            folder: if args.folder@ == "."@ { folder } else { args.folder },
            ..args
        }),
{
}

proof fn lemma_change_stat(args: Args, stat: bool)
    ensures
        changed(args, "stat"@, ArgValue::Bool(stat)) == (Args { stat, ..args }),
{
    reveal_strlit("stat");
}

proof fn lemma_change_backup(args: Args, backup: bool)
    ensures
        changed(args, "backup"@, ArgValue::Bool(backup)) == (Args { backup, ..args }),
{
    reveal_strlit("stat");
    reveal_strlit("backup");
    assert("stat"@[0] != "backup"@[0]);
}

/// Sorted by number: the keys never decrease.
pub open spec fn sorted_by_key(s: Seq<(Seq<char>, Seq<char>, Seq<char>)>) -> bool {
    forall|i: int, j: int| 0 <= i < j < s.len() ==> number_key(s[i]) <= number_key(s[j])
}

proof fn lemma_insert_by_key(sorted: Seq<(Seq<char>, Seq<char>, Seq<char>)>, x: (Seq<char>, Seq<char>, Seq<char>))
    requires
        sorted_by_key(sorted),
    ensures
        sorted_by_key(insert_by_key(sorted, x)),
        insert_by_key(sorted, x).len() == sorted.len() + 1,
        insert_by_key(sorted, x).to_multiset() == sorted.to_multiset().insert(x),
        forall|i: int| 0 <= i < insert_by_key(sorted, x).len() ==> number_key(#[trigger] insert_by_key(sorted, x)[i])
            == number_key(x) || sorted.contains(insert_by_key(sorted, x)[i]),
    decreases sorted.len(),
{
    broadcast use vstd::seq_lib::group_seq_properties;
    broadcast use vstd::multiset::group_multiset_axioms;
    if sorted.len() == 0 {
        assert(seq![x] == Seq::<(Seq<char>, Seq<char>, Seq<char>)>::empty().push(x));
    } else if number_key(sorted.last()) <= number_key(x) {
        let r = sorted.push(x);
        assert forall|i: int, j: int| 0 <= i < j < r.len() implies number_key(r[i]) <= number_key(r[j]) by {
            if j == r.len() - 1 && i < sorted.len() {
                assert(number_key(sorted[i]) <= number_key(sorted.last()));
            }
        }
        assert forall|i: int| 0 <= i < r.len() implies number_key(#[trigger] r[i]) == number_key(x) || sorted.contains(
            r[i],
        ) by {
            if i < sorted.len() {
                assert(sorted[i] == r[i]);
            }
        }
    } else {
        let p = sorted.drop_last();
        assert(sorted_by_key(p));
        lemma_insert_by_key(p, x);
        let q = insert_by_key(p, x);
        let r = q.push(sorted.last());
        assert(sorted == p.push(sorted.last()));
        assert forall|i: int, j: int| 0 <= i < j < r.len() implies number_key(r[i]) <= number_key(r[j]) by {
            if j == r.len() - 1 && i < q.len() {
                let e = q[i];
                if number_key(e) == number_key(x) {
                } else {
                    assert(p.contains(e));
                    let k = choose|k: int| 0 <= k < p.len() && p[k] == e;
                    assert(sorted[k] == e);
                    assert(number_key(sorted[k]) <= number_key(sorted[sorted.len() - 1]));
                }
            }
        }
        assert forall|i: int| 0 <= i < r.len() implies number_key(#[trigger] r[i]) == number_key(x) || sorted.contains(
            r[i],
        ) by {
            if i < q.len() {
                assert(r[i] == q[i]);
                if number_key(q[i]) != number_key(x) {
                    let k = choose|k: int| 0 <= k < p.len() && p[k] == q[i];
                    assert(sorted[k] == q[i]);
                }
            } else {
                assert(r[i] == sorted[sorted.len() - 1]);
            }
        }
        assert(r.to_multiset() == q.to_multiset().insert(sorted.last()));
        assert(sorted.to_multiset() == p.to_multiset().insert(sorted.last()));
    }
}

/// Sorting chapter records by number gives records whose numbers never decrease, and the
/// same records as before, each as many times.
pub proof fn law_sort_by_number(s: Seq<(Seq<char>, Seq<char>, Seq<char>)>)
    ensures
        sorted_by_key(sort_by_number(s)),
        sort_by_number(s).to_multiset() == s.to_multiset(),
        sort_by_number(s).len() == s.len(),
    decreases s.len(),
{
    broadcast use vstd::seq_lib::group_seq_properties;
    broadcast use vstd::multiset::group_multiset_axioms;
    if s.len() > 0 {
        law_sort_by_number(s.drop_last());
        lemma_insert_by_key(sort_by_number(s.drop_last()), s.last());
        assert(s == s.drop_last().push(s.last()));
    }
}

/// A refreshed chapter list holds every record that the check found.
pub proof fn law_refresh_keeps_found(
    current: Seq<(Seq<char>, Seq<char>, Seq<char>)>,
    remove: Seq<(Seq<char>, Seq<char>, Seq<char>)>,
    found: Seq<(Seq<char>, Seq<char>, Seq<char>)>,
)
    ensures
        forall|i: int| 0 <= i < found.len() ==> refreshed(current, remove, found).contains(#[trigger] found[i]),
    decreases found.len(),
{
    if found.len() > 0 {
        let p = found.drop_last();
        law_refresh_keeps_found(current, remove, p);
        let prev = refreshed(current, remove, p);
        let r = refreshed(current, remove, found);
        assert forall|i: int| 0 <= i < found.len() implies r.contains(#[trigger] found[i]) by {
            if i < p.len() {
                assert(p[i] == found[i]);
                assert(prev.contains(p[i]));
                if !prev.contains(found.last()) {
                    let k = choose|k: int| 0 <= k < prev.len() && prev[k] == p[i];
                    assert(r[k] == prev[k]);
                }
            } else {
                if !prev.contains(found.last()) {
                    assert(r[prev.len() as int] == found.last());
                }
            }
        }
    }
}

/// A list joined with `, ` never ends with the separator.
pub proof fn law_join_no_trailing_separator(items: Seq<Seq<char>>)
    ensures
        !(joined(items).len() >= 2 && joined(items)[joined(items).len() - 2] == ',' && joined(items)[joined(items).len()
            - 1] == ' '),
{
    lemma_trim_sep(listed_raw(items));
}

proof fn lemma_trim_sep(s: Seq<char>)
    ensures
        !(trim_sep(s).len() >= 2 && trim_sep(s)[trim_sep(s).len() - 2] == ',' && trim_sep(s)[trim_sep(s).len() - 1]
            == ' '),
    decreases s.len(),
{
    if s.len() >= 2 && s[s.len() - 2] == ',' && s[s.len() - 1] == ' ' {
        lemma_trim_sep(s.subrange(0, s.len() - 2));
    }
}

/// The listing stops at once exactly when neither `--show` nor `--show-all` was given,
/// and prints an entry whenever no filter names another manga.
pub proof fn law_show_choice(show: Option<Option<Seq<char>>>, show_all: Option<Option<Seq<char>>>, id: Seq<char>)
    ensures
        (show_choice_spec(show, show_all, id) == ShowChoice::Stop) == (show is None && show_all is None),
        (show is Some || show_all is Some) && !(show matches Some(Some(f)) && f.len() > 0 && f != id) && !(
        show_all matches Some(Some(f)) && f.len() > 0 && f != id) ==> show_choice_spec(show, show_all, id)
            == ShowChoice::Print,
{
}

proof fn lemma_batch_start(count: nat, per_batch: nat, i: int)
    requires
        per_batch > 0,
        0 <= i < count / per_batch + if count % per_batch == 0 { 0nat } else { 1nat },
    ensures
        i * per_batch < count,
        (i + 1) * per_batch == i * per_batch + per_batch,
        i + 1 == count / per_batch + (if count % per_batch == 0 { 0nat } else { 1nat }) ==> (i + 1) * per_batch
            >= count,
{
    let q = count / per_batch;
    let r = count % per_batch;
    assert(count == per_batch * q + r && 0 <= r < per_batch) by (nonlinear_arith)
        requires
            per_batch > 0,
            q == count / per_batch,
            r == count % per_batch,
    ;
    assert((i + 1) * per_batch == i * per_batch + per_batch) by (nonlinear_arith);
    if r == 0 {
        assert(i * per_batch < count) by (nonlinear_arith)
            requires
                0 <= i < q,
                count == per_batch * q,
                per_batch > 0,
        ;
        assert(i + 1 == q ==> (i + 1) * per_batch >= count) by (nonlinear_arith)
            requires
                count == per_batch * q,
        ;
    } else {
        assert(i * per_batch < count) by (nonlinear_arith)
            requires
                0 <= i < q + 1,
                count == per_batch * q + r,
                0 < r,
                per_batch > 0,
        ;
        assert(i + 1 == q + 1 ==> (i + 1) * per_batch >= count) by (nonlinear_arith)
            requires
                count == per_batch * q + r,
                r < per_batch,
        ;
    }
}

/// The download batches of `count` pages in runs of `per_batch`: they start at page 0,
/// each begins where the one before ends, none is empty or longer than `per_batch`, and
/// the last ends at `count`.
pub proof fn law_batches_cover(count: nat, per_batch: nat)
    requires
        per_batch > 0,
    ensures
        ({
            let b = batches_spec(count, per_batch);
            &&& (count == 0) == (b.len() == 0)
            &&& b.len() > 0 ==> b[0].0 == 0 && b.last().1 == count
            &&& forall|i: int| 0 <= i < b.len() ==> #[trigger] b[i].0 < b[i].1 <= b[i].0 + per_batch
            &&& forall|i: int| 0 <= i < b.len() - 1 ==> #[trigger] b[i].1 == b[i + 1].0
        }),
{
    let b = batches_spec(count, per_batch);
    assert forall|i: int| 0 <= i < b.len() implies #[trigger] b[i].0 < b[i].1 <= b[i].0 + per_batch by {
        lemma_batch_start(count, per_batch, i);
    }
    assert forall|i: int| 0 <= i < b.len() - 1 implies #[trigger] b[i].1 == b[i + 1].0 by {
        lemma_batch_start(count, per_batch, i);
        lemma_batch_start(count, per_batch, i + 1);
    }
    if b.len() > 0 {
        lemma_batch_start(count, per_batch, b.len() - 1);
        assert(0 * per_batch == 0) by (nonlinear_arith);
    }
    if count > 0 && count / per_batch == 0 {
        assert(count % per_batch == count) by (nonlinear_arith)
            requires
                count / per_batch == 0,
                per_batch > 0,
        ;
    }
    if count == 0 {
        assert(count / per_batch == 0 && count % per_batch == 0) by (nonlinear_arith)
            requires
                count == 0,
                per_batch > 0,
        ;
    }
}

proof fn lemma_new_chapters_member(existing: Seq<ChapterMetadata>, found: Seq<ChapterMetadata>, k: int)
    requires
        0 <= k < found.len(),
        !number_known(existing, found[k].number@),
    ensures
        new_chapters(existing, found).contains(chapter_view(found[k])),
    decreases found.len(),
{
    let p = found.drop_last();
    let prev = new_chapters(existing, p);
    if k == found.len() - 1 {
        assert(new_chapters(existing, found) == prev.push(chapter_view(found.last())));
        assert(new_chapters(existing, found)[prev.len() as int] == chapter_view(found[k]));
    } else {
        assert(p[k] == found[k]);
        lemma_new_chapters_member(existing, p, k);
        let j = choose|j: int| 0 <= j < prev.len() && prev[j] == chapter_view(found[k]);
        if !number_known(existing, found.last().number@) {
            assert(new_chapters(existing, found)[j] == prev[j]);
        }
    }
}

proof fn lemma_all_known(after: Seq<ChapterMetadata>, found: Seq<ChapterMetadata>)
    requires
        forall|k: int| 0 <= k < found.len() ==> number_known(after, #[trigger] found[k].number@),
    ensures
        new_chapters(after, found) == Seq::<(Seq<char>, Seq<char>, Seq<char>)>::empty(),
    decreases found.len(),
{
    if found.len() > 0 {
        let p = found.drop_last();
        assert forall|k: int| 0 <= k < p.len() implies number_known(after, #[trigger] p[k].number@) by {
            assert(p[k] == found[k]);
        }
        lemma_all_known(after, p);
        assert(number_known(after, found[found.len() - 1].number@));
    }
}

/// Recording a download leaves every chapter of it in the database, so recording the same
/// download again adds nothing: `after` is the chapter list that recording `found` into
/// `existing` gives.
pub proof fn law_download_recorded(
    existing: Seq<ChapterMetadata>,
    found: Seq<ChapterMetadata>,
    after: Seq<ChapterMetadata>,
)
    requires
        chapters_view(after) == chapters_view(existing) + sort_by_number(new_chapters(existing, found)),
    ensures
        forall|k: int| 0 <= k < found.len() ==> number_known(after, #[trigger] found[k].number@),
        new_chapters(after, found) == Seq::<(Seq<char>, Seq<char>, Seq<char>)>::empty(),
{
    broadcast use vstd::seq_lib::group_seq_properties;
    let fresh = new_chapters(existing, found);
    law_sort_by_number(fresh);
    let sorted = sort_by_number(fresh);
    let base = chapters_view(existing);
    assert forall|k: int| 0 <= k < found.len() implies number_known(after, #[trigger] found[k].number@) by {
        let n = found[k].number@;
        if number_known(existing, n) {
            let j = choose|j: int| 0 <= j < existing.len() && #[trigger] existing[j].number@ == n;
            assert(chapters_view(after).len() == after.len());
            assert(base.len() == existing.len());
            assert(chapters_view(after)[j] == base[j]);
            assert(base[j] == chapter_view(existing[j]));
            assert(chapters_view(after)[j] == chapter_view(after[j]));
            assert(after[j].number@ == n);
        } else {
            lemma_new_chapters_member(existing, found, k);
            fresh.to_multiset_ensures();
            sorted.to_multiset_ensures();
            let x = chapter_view(found[k]);
            assert(fresh.contains(x));
            assert(fresh.to_multiset().count(x) > 0);
            assert(sorted.to_multiset().count(x) > 0);
            assert(sorted.contains(x));
            let j = choose|j: int| 0 <= j < sorted.len() && sorted[j] == chapter_view(found[k]);
            assert(chapters_view(after).len() == after.len());
            assert(chapters_view(after)[base.len() + j] == sorted[j]);
            assert(chapters_view(after)[base.len() + j] == chapter_view(after[base.len() + j]));
            assert(after[base.len() + j].number@ == n);
        }
    }
    lemma_all_known(after, found);
}

/// The stored resources after a list of changes.
pub open spec fn apply_ops(store: Map<Seq<char>, Seq<char>>, ops: Seq<ResourceOpView>) -> Map<Seq<char>, Seq<char>>
    decreases ops.len(),
{
    if ops.len() == 0 {
        store
    } else {
        let before = apply_ops(store, ops.drop_last());
        match ops.last() {
            ResourceOpView::Write(name, value) => before.insert(name, value),
            ResourceOpView::Delete(name) => before.remove(name),
        }
    }
}

/// What is stored under `name`.
pub open spec fn stored_value(store: Map<Seq<char>, Seq<char>>, name: Seq<char>) -> Option<Seq<char>> {
    if store.dom().contains(name) {
        Some(store[name])
    } else {
        None
    }
}

/// The settings that a run reads from a store.
pub open spec fn settings_in(store: Map<Seq<char>, Seq<char>>, arg_folder: Seq<char>, arg_stat: bool) -> (
    Seq<char>,
    bool,
    bool,
) {
    settings_spec(
        stored_value(store, db_folder()),
        stored_value(store, db_stat()),
        stored_value(store, db_backup()),
        arg_folder,
        arg_stat,
    )
}

proof fn lemma_names_differ()
    ensures
        db_folder() != db_stat(),
        db_folder() != db_backup(),
        db_folder() != db_tutorial(),
        db_stat() != db_backup(),
        db_stat() != db_tutorial(),
        db_backup() != db_tutorial(),
{
    reveal_strlit("2001");
    reveal_strlit("2002");
    reveal_strlit("2003");
    reveal_strlit("2004");
    assert(db_folder()[3] != db_stat()[3]);
    assert(db_folder()[3] != db_backup()[3]);
    assert(db_folder()[3] != db_tutorial()[3]);
    assert(db_stat()[3] != db_backup()[3]);
    assert(db_stat()[3] != db_tutorial()[3]);
    assert(db_backup()[3] != db_tutorial()[3]);
}

proof fn lemma_apply_append(store: Map<Seq<char>, Seq<char>>, a: Seq<ResourceOpView>, b: Seq<ResourceOpView>)
    ensures
        apply_ops(store, a + b) == apply_ops(apply_ops(store, a), b),
    decreases b.len(),
{
    if b.len() == 0 {
        assert(a + b == a);
    } else {
        assert((a + b).drop_last() == a + b.drop_last());
        assert((a + b).last() == b.last());
        lemma_apply_append(store, a, b.drop_last());
    }
}

/// What an option of `settings` leaves stored under `name`.
pub open spec fn after_option(before: Option<Seq<char>>, o: Option<Option<Seq<char>>>) -> Option<Seq<char>> {
    match o {
        Some(Some(v)) => Some(v),
        Some(None) => None,
        None => before,
    }
}

proof fn lemma_option_ops(store: Map<Seq<char>, Seq<char>>, name: Seq<char>, o: Option<Option<String>>, other: Seq<char>)
    requires
        other != name,
    ensures
        stored_value(apply_ops(store, crate::settings::option_ops(name, o)), name) == after_option(
            stored_value(store, name),
            match o {
                Some(Some(v)) => Some(Some(v@)),
                Some(None) => Some(None),
                None => None,
            },
        ),
        stored_value(apply_ops(store, crate::settings::option_ops(name, o)), other) == stored_value(store, other),
{
    let ops = crate::settings::option_ops(name, o);
    match o {
        Some(Some(v)) => {
            assert(ops.drop_last() =~= Seq::<ResourceOpView>::empty());
            assert(apply_ops(store, ops.drop_last()) == store);
            let after = store.insert(name, v@);
            assert(apply_ops(store, ops) == after);
            assert(after.dom().contains(other) == store.dom().contains(other));
            if store.dom().contains(other) {
                assert(after[other] == store[other]);
            }
        },
        Some(None) => {
            assert(ops.drop_last() =~= Seq::<ResourceOpView>::empty());
            assert(apply_ops(store, ops.drop_last()) == store);
            let after = store.remove(name);
            assert(apply_ops(store, ops) == after);
            assert(after.dom().contains(other) == store.dom().contains(other));
            if store.dom().contains(other) {
                assert(after[other] == store[other]);
            }
        },
        None => {},
    }
}

/// What `settings` stores is what the next run reads: a folder given to `--folder` is
/// the folder, a bare `--folder` brings back the command line's; a flag `0` or `1` given
/// to `--stat` or `--backup` is the flag, a bare option brings back its default; an option
/// not given keeps what was stored (as does a `--stat` value other than a flag).
/// `--clear` brings back every default.
pub proof fn law_settings_saved(
    store: Map<Seq<char>, Seq<char>>,
    folder: Option<Option<String>>,
    stat: Option<Option<String>>,
    backup: Option<Option<String>>,
    clear: bool,
    arg_folder: Seq<char>,
    arg_stat: bool,
)
    ensures
        ({
            let after = apply_ops(store, settings_ops_spec(folder, stat, backup, clear));
            let view = |o: Option<Option<String>>|
                match o {
                    Some(Some(v)) => Some(Some(v@)),
                    Some(None) => Some(None),
                    None => None,
                };
            let stat_view = match stat {
                Some(Some(v)) => if is_flag(v@) { Some(Some(v@)) } else { None },
                _ => view(stat),
            };
            if clear {
                settings_in(after, arg_folder, arg_stat) == (arg_folder, arg_stat, true)
            } else {
                settings_in(after, arg_folder, arg_stat) == settings_spec(
                    after_option(stored_value(store, db_folder()), view(folder)),
                    after_option(stored_value(store, db_stat()), stat_view),
                    after_option(stored_value(store, db_backup()), view(backup)),
                    arg_folder,
                    arg_stat,
                )
            }
        }),
{
    lemma_names_differ();
    let f_ops = crate::settings::option_ops(db_folder(), folder);
    let s_ops = match stat {
        Some(Some(v)) => if is_flag(v@) { crate::settings::option_ops(db_stat(), stat) } else { seq![] },
        _ => crate::settings::option_ops(db_stat(), stat),
    };
    let b_ops = crate::settings::option_ops(db_backup(), backup);
    let c_ops = if clear {
        seq![
            ResourceOpView::Delete(db_folder()),
            ResourceOpView::Delete(db_stat()),
            ResourceOpView::Delete(db_tutorial()),
            ResourceOpView::Delete(db_backup()),
        ]
    } else {
        seq![]
    };
    assert(settings_ops_spec(folder, stat, backup, clear) == f_ops + s_ops + b_ops + c_ops);
    lemma_apply_append(store, f_ops + s_ops + b_ops, c_ops);
    lemma_apply_append(store, f_ops + s_ops, b_ops);
    lemma_apply_append(store, f_ops, s_ops);
    let st1 = apply_ops(store, f_ops);
    let st2 = apply_ops(st1, s_ops);
    let st3 = apply_ops(st2, b_ops);
    lemma_option_ops(store, db_folder(), folder, db_stat());
    lemma_option_ops(store, db_folder(), folder, db_backup());
    match stat {
        Some(Some(v)) => {
            if is_flag(v@) {
                lemma_option_ops(st1, db_stat(), stat, db_folder());
                lemma_option_ops(st1, db_stat(), stat, db_backup());
            } else {
                assert(s_ops =~= Seq::<ResourceOpView>::empty());
            }
        },
        _ => {
            lemma_option_ops(st1, db_stat(), stat, db_folder());
            lemma_option_ops(st1, db_stat(), stat, db_backup());
        },
    }
    lemma_option_ops(st2, db_backup(), backup, db_folder());
    lemma_option_ops(st2, db_backup(), backup, db_stat());
    if clear {
        let c = c_ops;
        assert(c.drop_last().drop_last().drop_last().drop_last() =~= Seq::<ResourceOpView>::empty());
        assert(c.drop_last().drop_last().drop_last() =~= seq![ResourceOpView::Delete(db_folder())]);
        assert(c.drop_last().drop_last() =~= seq![ResourceOpView::Delete(db_folder()), ResourceOpView::Delete(db_stat())]);
        assert(c.drop_last() =~= seq![
            ResourceOpView::Delete(db_folder()),
            ResourceOpView::Delete(db_stat()),
            ResourceOpView::Delete(db_tutorial()),
        ]);
        let fin = apply_ops(st3, c);
        assert(apply_ops(st3, c.drop_last().drop_last().drop_last().drop_last()) == st3);
        let x1 = apply_ops(st3, c.drop_last().drop_last().drop_last());
        assert(x1 == st3.remove(db_folder()));
        let x2 = apply_ops(st3, c.drop_last().drop_last());
        assert(x2 == x1.remove(db_stat()));
        let x3 = apply_ops(st3, c.drop_last());
        assert(x3 == x2.remove(db_tutorial()));
        assert(fin == x3.remove(db_backup()));
        assert(!fin.dom().contains(db_folder()));
        assert(!fin.dom().contains(db_stat()));
        assert(!fin.dom().contains(db_backup()));
    } else {
        assert(c_ops =~= Seq::<ResourceOpView>::empty());
        assert(f_ops + s_ops + b_ops + c_ops =~= f_ops + s_ops + b_ops);
    }
}

/// A chapter whose archive is already there (in the wanted language, made with the
/// wanted images) is not downloaded again unless `--force` is given or MangaDex updated it
/// after the stored date; with `--force`, or once MangaDex updated it, its archive does not
/// count as downloaded.
pub proof fn law_downloaded_chapter_skipped(plan: ChapterPlan, s: ChapterState, f: ChapterFacts, order: Option<i8>)
    ensures
        counts_downloaded(plan, s, f) && order != Some(-1i8) ==> action_spec(plan, s, f, order)
            == ChapterAction::SkipDownloaded,
        plan.force ==> action_spec(plan, s, f, order) != ChapterAction::SkipDownloaded,
        order == Some(-1i8) ==> action_spec(plan, s, f, order) != ChapterAction::SkipDownloaded,
        !f.file_exists ==> action_spec(plan, s, f, order) != ChapterAction::SkipDownloaded,
{
}

proof fn lemma_text_le_total(a: Seq<char>, b: Seq<char>)
    ensures
        text_le(a, b) || text_le(b, a),
    decreases a.len(),
{
    if a.len() > 0 && b.len() > 0 {
        if a[0] == b[0] {
            lemma_text_le_total(a.drop_first(), b.drop_first());
        } else {
            vstd::utf8::char_u32_cast(a[0], a[0] as u32);
            vstd::utf8::char_u32_cast(b[0], b[0] as u32);
            assert((a[0] as u32) != (b[0] as u32));
        }
    }
}

proof fn lemma_text_le_trans(a: Seq<char>, b: Seq<char>, c: Seq<char>)
    requires
        text_le(a, b),
        text_le(b, c),
    ensures
        text_le(a, c),
    decreases a.len(),
{
    if a.len() > 0 && b.len() > 0 && c.len() > 0 && a[0] == b[0] && b[0] == c[0] {
        lemma_text_le_trans(a.drop_first(), b.drop_first(), c.drop_first());
    }
}

/// Texts in the order of `String`s.
pub open spec fn texts_sorted(s: Seq<Seq<char>>) -> bool {
    forall|i: int, j: int| 0 <= i < j < s.len() ==> text_le(s[i], s[j])
}

proof fn lemma_insert_text(sorted: Seq<Seq<char>>, x: Seq<char>)
    requires
        texts_sorted(sorted),
    ensures
        texts_sorted(insert_text(sorted, x)),
        insert_text(sorted, x).to_multiset() == sorted.to_multiset().insert(x),
        forall|i: int| 0 <= i < insert_text(sorted, x).len() ==> #[trigger] insert_text(sorted, x)[i] == x
            || sorted.contains(insert_text(sorted, x)[i]),
    decreases sorted.len(),
{
    broadcast use vstd::seq_lib::group_seq_properties;
    broadcast use vstd::multiset::group_multiset_axioms;
    if sorted.len() == 0 {
        assert(seq![x] == Seq::<Seq<char>>::empty().push(x));
    } else if text_le(sorted.last(), x) {
        let r = sorted.push(x);
        assert forall|i: int, j: int| 0 <= i < j < r.len() implies text_le(r[i], r[j]) by {
            if j == r.len() - 1 && i < sorted.len() - 1 {
                lemma_text_le_trans(sorted[i], sorted.last(), x);
            }
        }
        assert forall|i: int| 0 <= i < r.len() implies #[trigger] r[i] == x || sorted.contains(r[i]) by {
            if i < sorted.len() {
                assert(sorted[i] == r[i]);
            }
        }
    } else {
        let p = sorted.drop_last();
        assert(texts_sorted(p));
        lemma_insert_text(p, x);
        let q = insert_text(p, x);
        let r = q.push(sorted.last());
        assert(sorted == p.push(sorted.last()));
        lemma_text_le_total(sorted.last(), x);
        assert forall|i: int, j: int| 0 <= i < j < r.len() implies text_le(r[i], r[j]) by {
            if j == r.len() - 1 && i < q.len() {
                let e = q[i];
                if e == x {
                } else {
                    let k = choose|k: int| 0 <= k < p.len() && p[k] == e;
                    assert(sorted[k] == e);
                }
            }
        }
        assert forall|i: int| 0 <= i < r.len() implies #[trigger] r[i] == x || sorted.contains(r[i]) by {
            if i < q.len() {
                assert(r[i] == q[i]);
                if q[i] != x {
                    let k = choose|k: int| 0 <= k < p.len() && p[k] == q[i];
                    assert(sorted[k] == q[i]);
                }
            } else {
                assert(r[i] == sorted[sorted.len() - 1]);
            }
        }
        assert(r.to_multiset() == q.to_multiset().insert(sorted.last()));
        assert(sorted.to_multiset() == p.to_multiset().insert(sorted.last()));
    }
}

/// The listings of `--show-log` come in the order of `String`s: sorting gives the same
/// texts, each as many times, in non-decreasing order.
pub proof fn law_sorted_texts(s: Seq<Seq<char>>)
    ensures
        texts_sorted(sorted_texts(s)),
        sorted_texts(s).to_multiset() == s.to_multiset(),
    decreases s.len(),
{
    broadcast use vstd::seq_lib::group_seq_properties;
    broadcast use vstd::multiset::group_multiset_axioms;
    if s.len() > 0 {
        law_sorted_texts(s.drop_last());
        lemma_insert_text(sorted_texts(s.drop_last()), s.last());
        assert(s == s.drop_last().push(s.last()));
    }
}


proof fn lemma_strip_concat(a: Seq<char>, b: Seq<char>)
    ensures
        strip_forbidden(a + b) == strip_forbidden(a) + strip_forbidden(b),
    decreases b.len(),
{
    if b.len() == 0 {
        assert(a + b == a);
        assert(strip_forbidden(a) + strip_forbidden(b) == strip_forbidden(a));
    } else {
        assert((a + b).drop_last() == a + b.drop_last());
        assert((a + b).last() == b.last());
        lemma_strip_concat(a, b.drop_last());
        if !is_forbidden_filename_char(b.last()) {
            assert(strip_forbidden(a) + strip_forbidden(b.drop_last()).push(b.last()) == (strip_forbidden(a)
                + strip_forbidden(b.drop_last())).push(b.last()));
        }
    }
}

proof fn lemma_strip_clean(s: Seq<char>)
    requires
        forall|i: int| 0 <= i < s.len() ==> !is_forbidden_filename_char(#[trigger] s[i]),
    ensures
        strip_forbidden(s) == s,
    decreases s.len(),
{
    if s.len() > 0 {
        assert(!is_forbidden_filename_char(s[s.len() - 1]));
        lemma_strip_clean(s.drop_last());
        assert(s.drop_last().push(s.last()) == s);
    }
}

/// Whether a text holds no character that file names drop (a chapter number such as
/// `12` or `10.5`).
pub open spec fn no_forbidden(s: Seq<char>) -> bool {
    forall|i: int| 0 <= i < s.len() ==> !is_forbidden_filename_char(#[trigger] s[i])
}

/// A chapter's folder name is, piece by piece, the manga's name, ` - `, the volume prefix,
/// `Ch.`, the chapter number and, when there is a title, ` - ` and the title, each without
/// the characters that file names drop.
pub proof fn law_folder_name_pieces(f: FileName)
    ensures
        folder_name(f) == strip_forbidden(f.manga_name@) + " - "@ + strip_forbidden(f.vol@) + "Ch."@
            + strip_forbidden(f.chapter_num@) + (if f.title@.len() != 0 {
            " - "@ + strip_forbidden(f.title@)
        } else {
            Seq::<char>::empty()
        }),
{
    reveal_strlit(" - ");
    reveal_strlit("Ch.");
    lemma_strip_clean(" - "@);
    lemma_strip_clean("Ch."@);
    let m = f.manga_name@;
    let v = f.vol@;
    let c = f.chapter_num@;
    let t = f.title@;
    lemma_strip_concat(m, " - "@);
    lemma_strip_concat(m + " - "@, v);
    lemma_strip_concat(m + " - "@ + v, "Ch."@);
    lemma_strip_concat(m + " - "@ + v + "Ch."@, c);
    let base = m + " - "@ + v + "Ch."@ + c;
    if t.len() != 0 {
        lemma_strip_concat(base, " - "@);
        lemma_strip_concat(base + " - "@, t);
        assert(base + " - "@ + t == base + (" - "@ + t));
    } else {
        assert(strip_forbidden(base) + Seq::<char>::empty() == strip_forbidden(base));
    }
}

/// Two chapters of the same manga, volume and title whose numbers differ get different
/// folder names (and so different archives), when the numbers hold no character that file
/// names drop.
pub proof fn law_folder_name_tells_chapters_apart(a: FileName, b: FileName)
    requires
        a.manga_name@ == b.manga_name@,
        a.vol@ == b.vol@,
        a.title@ == b.title@,
        a.chapter_num@ != b.chapter_num@,
        no_forbidden(a.chapter_num@),
        no_forbidden(b.chapter_num@),
    ensures
        folder_name(a) != folder_name(b),
{
    law_folder_name_pieces(a);
    law_folder_name_pieces(b);
    lemma_strip_clean(a.chapter_num@);
    lemma_strip_clean(b.chapter_num@);
    let p = strip_forbidden(a.manga_name@) + " - "@ + strip_forbidden(a.vol@) + "Ch."@;
    let t = if a.title@.len() != 0 {
        " - "@ + strip_forbidden(a.title@)
    } else {
        Seq::<char>::empty()
    };
    let na = a.chapter_num@;
    let nb = b.chapter_num@;
    assert(folder_name(a) == p + na + t);
    assert(folder_name(b) == p + nb + t);
    if folder_name(a) == folder_name(b) {
        assert(na.len() == nb.len());
        assert((p + na + t).subrange(p.len() as int, (p.len() + na.len()) as int) == na);
        assert((p + nb + t).subrange(p.len() as int, (p.len() + nb.len()) as int) == nb);
    }
}

/// The `--chapter` option decides only by the chapter's own number: a chapter is skipped
/// for it only when the option is neither `*` nor that number, and a chapter whose number
/// the option names (or any chapter under `*`) is never skipped for it.
pub proof fn law_chapter_option_filters_by_number(
    plan: ChapterPlan,
    s: ChapterState,
    f: ChapterFacts,
    order: Option<i8>,
)
    ensures
        action_spec(plan, s, f, order) == ChapterAction::SkipChapter ==> plan.arg_chapter@ != "*"@
            && plan.arg_chapter@ != f.chapter_num@,
        plan.arg_chapter@ == f.chapter_num@ || plan.arg_chapter@ == "*"@ ==> action_spec(plan, s, f, order)
            != ChapterAction::SkipChapter,
{
}

/// The `--volume` option decides only by the chapter's bare volume number: a chapter is
/// skipped for it only when the option is neither `*` nor that number.
pub proof fn law_volume_option_filters_by_volume(
    plan: ChapterPlan,
    s: ChapterState,
    f: ChapterFacts,
    order: Option<i8>,
)
    ensures
        action_spec(plan, s, f, order) == ChapterAction::SkipVolume ==> plan.arg_volume@ != "*"@
            && plan.arg_volume@ != f.volume@,
        plan.arg_volume@ == f.volume@ || plan.arg_volume@ == "*"@ ==> action_spec(plan, s, f, order)
            != ChapterAction::SkipVolume,
{
}

/// A chapter that is not on disk, has pages, is in the wanted language, is new to the run
/// and passes `--volume` is downloaded when `--chapter` names its number (or is `*`), in a
/// plain run with no offset to pass over.
pub proof fn law_named_chapter_downloaded(plan: ChapterPlan, s: ChapterState, f: ChapterFacts, order: Option<i8>)
    requires
        !f.file_exists,
        f.pages > 0,
        f.lang@ == plan.language@ || plan.language@ == "*"@,
        plan.arg_volume@ == "*"@ || plan.arg_volume@ == f.volume@,
        plan.arg_chapter@ == "*"@ || plan.arg_chapter@ == f.chapter_num@,
        forall|i: int| 0 <= i < s.chapters@.len() ==> (#[trigger] s.chapters@[i]).number@ != f.chapter_num@,
        forall|i: int| 0 <= i < plan.all_ids@.len() ==> (#[trigger] plan.all_ids@[i])@ != f.id@,
        plan.arg_offset <= s.times,
        !plan.check,
    ensures
        action_spec(plan, s, f, order) == ChapterAction::Download,
{
    assert(!crate::chapter::has_number(chapters_view(s.chapters@), f.chapter_num@)) by {
        if crate::chapter::has_number(chapters_view(s.chapters@), f.chapter_num@) {
            let k = choose|k: int| 0 <= k < chapters_view(s.chapters@).len() && #[trigger] chapters_view(s.chapters@)[k].0 == f.chapter_num@;
            assert(chapters_view(s.chapters@)[k].0 == s.chapters@[k].number@);
        }
    }
}

/// A library-server request for `/__download__?…` with a `path` parameter is answered by
/// zipping that folder; a preview is only ever answered to a `/__preview__?…` request, and a
/// download only to a `/__download__?…` request, each with the request's `path` parameter.
pub proof fn law_server_download_route(parts: Seq<Seq<char>>)
    ensures
        parts.len() >= 2 && is_prefix("/__download__?"@, parts[1]) ==> match query_value(
            query_params(parts[1]),
            "path"@,
        ) {
            Some(p) => server_route_spec(parts) == ServerRouteView::Download(p),
            None => server_route_spec(parts) == ServerRouteView::Ignore,
        },
        server_route_spec(parts) matches ServerRouteView::Preview(p) ==> parts.len() >= 2 && is_prefix(
            "/__preview__?"@,
            parts[1],
        ) && query_value(query_params(parts[1]), "path"@) == Some(p),
        server_route_spec(parts) matches ServerRouteView::Download(p) ==> parts.len() >= 2 && is_prefix(
            "/__download__?"@,
            parts[1],
        ) && query_value(query_params(parts[1]), "path"@) == Some(p),
{
    reveal_strlit("/__download__?");
    reveal_strlit("/__preview__?");
    reveal_strlit("/__search__");
    reveal_strlit("/__search__?");
    reveal_strlit("/__version__");
    reveal_strlit("/__get__?");
    reveal_strlit("/");
    if parts.len() >= 2 {
        let path = parts[1];
        if is_prefix("/__download__?"@, path) {
            assert(path[3] == 'd') by {
                assert(path.subrange(0, 14)[3] == path[3]);
            }
            if is_prefix("/__search__"@, path) {
                assert(path.subrange(0, 11)[3] == path[3]);
            }
            if is_prefix("/__preview__?"@, path) {
                assert(path.subrange(0, 13)[3] == path[3]);
            }
        }
    }
}

/// A download in the manga's original language is always possible: when the original
/// language and a translation list of strings are known, choosing the original language,
/// any listed translation, or `*` passes the language check; it fails only for a language
/// that is none of these.
pub proof fn law_original_language_available(current: Seq<char>, o: String, l: Seq<LangValue>)
    ensures
        all_text(l) && (o@ == current || current == "*"@ || exists|i: int|
            0 <= i < l.len() && or_empty(#[trigger] l[i].text) == current) ==> language_check_spec(
            current,
            Some(o),
            Some(l),
        ) == Some(true),
        language_check_spec(current, Some(o), Some(l)) == Some(false) ==> o@ != current && current != "*"@
            && forall|i: int| 0 <= i < l.len() ==> or_empty(#[trigger] l[i].text) != current,
{
    let texts = crate::resolve::lang_texts(l);
    assert forall|i: int| 0 <= i < l.len() implies texts[i] == or_empty(#[trigger] l[i].text) by {}
    if exists|i: int| 0 <= i < l.len() && or_empty(#[trigger] l[i].text) == current {
        let i = choose|i: int| 0 <= i < l.len() && or_empty(#[trigger] l[i].text) == current;
        assert(texts[i] == current);
    }
    if language_check_spec(current, Some(o), Some(l)) == Some(false) {
        assert forall|i: int| 0 <= i < l.len() implies or_empty(#[trigger] l[i].text) != current by {
            if or_empty(l[i].text) == current {
                assert(texts[i] == current);
            }
        }
    }
}

/// Building the run's arguments keeps every option given on the command line in the field
/// of the same name.
pub proof fn law_from_args_keeps_options(a: ParserArgs)
    ensures
        args_from_parsed(a).url == a.url,
        args_from_parsed(a).info == a.info,
        args_from_parsed(a).lang == a.lang,
        args_from_parsed(a).title == a.title,
        args_from_parsed(a).folder == a.folder,
        args_from_parsed(a).volume == a.volume,
        args_from_parsed(a).chapter == a.chapter,
        args_from_parsed(a).saver == a.saver,
        args_from_parsed(a).stat == a.stat,
        args_from_parsed(a).quiet == a.quiet,
        args_from_parsed(a).max_consecutive == a.max_consecutive,
        args_from_parsed(a).force == a.force,
        args_from_parsed(a).offset == a.offset,
        args_from_parsed(a).database_offset == a.database_offset,
        args_from_parsed(a).unsorted == a.unsorted,
        args_from_parsed(a).cwd == a.cwd,
        args_from_parsed(a).encode == a.encode,
        args_from_parsed(a).log == a.log,
        args_from_parsed(a).tutorial == a.tutorial,
        args_from_parsed(a).skip_tutorial == a.skip_tutorial,
        args_from_parsed(a).search == a.search,
        args_from_parsed(a).web == a.web,
        args_from_parsed(a).server == a.server,
        args_from_parsed(a).gui == a.gui,
        args_from_parsed(a).debug == a.debug,
        args_from_parsed(a).debug_file == a.debug_file,
        args_from_parsed(a).dev == a.dev,
        args_from_parsed(a).music == a.music,
        args_from_parsed(a).subcommands == a.subcommands,
{
}

} // verus!
