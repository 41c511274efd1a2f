//! Query strings and the routing of requests of the web and server interfaces.

use vstd::prelude::*;
use vstd::string::*;
use crate::text::{chars_eq, chars_to_string, str_chars};

verus! {

/// The pieces of `s` between occurrences of `sep` (`str::split` with a character); there is
/// always at least one piece.
pub open spec fn split_on(s: Seq<char>, sep: char) -> Seq<Seq<char>>
    decreases s.len(),
{
    if s.len() == 0 {
        seq![Seq::empty()]
    } else {
        let prev = split_on(s.drop_last(), sep);
        if s.last() == sep {
            prev.push(Seq::empty())
        } else {
            prev.update(prev.len() - 1, prev.last().push(s.last()))
        }
    }
}

proof fn lemma_split_nonempty(s: Seq<char>, sep: char)
    ensures
        split_on(s, sep).len() >= 1,
    decreases s.len(),
{
    if s.len() > 0 {
        lemma_split_nonempty(s.drop_last(), sep);
    }
}

/// Splits `s` at every `sep`.
pub fn split_chars(s: &[char], sep: char) -> (r: Vec<Vec<char>>)
    ensures
        r@.len() == split_on(s@, sep).len(),
        forall|i: int| 0 <= i < r@.len() ==> #[trigger] r@[i]@ == split_on(s@, sep)[i],
{
    let mut r: Vec<Vec<char>> = Vec::new();
    r.push(Vec::new());
    let mut i: usize = 0;
    assert(s@.subrange(0, 0) =~= Seq::<char>::empty());
    while i < s.len()
        invariant
            i <= s@.len(),
            r@.len() == split_on(s@.subrange(0, i as int), sep).len(),
            r@.len() >= 1,
            forall|k: int| 0 <= k < r@.len() ==> #[trigger] r@[k]@ == split_on(
                s@.subrange(0, i as int),
                sep,
            )[k],
        decreases s@.len() - i,
    {
        let ghost prev = split_on(s@.subrange(0, i as int), sep);
        assert(s@.subrange(0, i + 1).drop_last() == s@.subrange(0, i as int));
        assert(s@.subrange(0, i + 1).last() == s@[i as int]);
        let c = s[i];
        if c == sep {
            r.push(Vec::new());
        } else {
            let last = r.len() - 1;
            let mut piece = r.pop().unwrap();
            piece.push(c);
            r.push(piece);
            assert(r@[last as int]@ == prev.last().push(c));
        }
        i = i + 1;
        assert forall|k: int| 0 <= k < r@.len() implies #[trigger] r@[k]@ == split_on(
            s@.subrange(0, i as int),
            sep,
        )[k] by {}
    }
    assert(s@.subrange(0, s@.len() as int) == s@);
    r
}

/// The query part of a request target: the text between its first and second `?`, or
/// empty when it holds no `?`.
pub open spec fn query_part(target: Seq<char>) -> Seq<char> {
    let pieces = split_on(target, '?');
    if pieces.len() > 1 { pieces[1] } else { Seq::empty() }
}

/// One `key=value` parameter: the text before the first `=` and the text between the first
/// and second `=` (empty when there is no `=`).
pub open spec fn query_param(p: Seq<char>) -> (Seq<char>, Seq<char>) {
    let kv = split_on(p, '=');
    (kv[0], if kv.len() > 1 { kv[1] } else { Seq::empty() })
}

/// The parameters of a request target, in order.
pub open spec fn query_params(target: Seq<char>) -> Seq<(Seq<char>, Seq<char>)> {
    split_on(query_part(target), '&').map_values(|p: Seq<char>| query_param(p))
}

/// The value of the last parameter named `key`, as a map built from the parameters holds it.
pub open spec fn query_value(params: Seq<(Seq<char>, Seq<char>)>, key: Seq<char>) -> Option<
    Seq<char>,
>
    decreases params.len(),
{
    if params.len() == 0 {
        None
    } else if params.last().0 == key {
        Some(params.last().1)
    } else {
        query_value(params.drop_last(), key)
    }
}

/// One query parameter.
#[derive(Debug, Clone)]
pub struct QueryParam {
    pub key: String,
    pub value: String,
}

/// View of parameters as pairs.
pub open spec fn params_view(ps: Seq<QueryParam>) -> Seq<(Seq<char>, Seq<char>)> {
    ps.map_values(|p: QueryParam| (p.key@, p.value@))
}

/// The query parameters of the request target `parts[1]` (the second word of the request
/// line), in order; a later parameter with the same key overrides an earlier one in
/// [`query_get`].
pub fn get_query(parts: &Vec<&str>) -> (r: Vec<QueryParam>)
    requires
        parts@.len() >= 2,
    ensures
        params_view(r@) == query_params(parts@[1]@),
{
    let target = str_chars(parts[1]);
    let pieces = split_chars(target.as_slice(), '?');
    proof {
        lemma_split_nonempty(target@, '?');
    }
    let query: Vec<char> = if pieces.len() > 1 {
        pieces[1].clone()
    } else {
        Vec::new()
    };
    assert(query@ == query_part(target@));
    let items = split_chars(query.as_slice(), '&');
    let ghost spec_items = split_on(query@, '&');
    let mut r: Vec<QueryParam> = Vec::new();
    let mut i: usize = 0;
    while i < items.len()
        invariant
            i <= items@.len(),
            items@.len() == spec_items.len(),
            forall|k: int| 0 <= k < items@.len() ==> #[trigger] items@[k]@ == spec_items[k],
            params_view(r@) == spec_items.subrange(0, i as int).map_values(
                |p: Seq<char>| query_param(p),
            ),
        decreases items@.len() - i,
    {
        let kv = split_chars(items[i].as_slice(), '=');
        proof {
            lemma_split_nonempty(items@[i as int]@, '=');
        }
        let key = chars_to_string(kv[0].as_slice());
        let value = if kv.len() > 1 {
            chars_to_string(kv[1].as_slice())
        } else {
            String::new()
        };
        let ghost before = r@;
        r.push(QueryParam { key, value });
        i = i + 1;
        assert(params_view(r@) == params_view(before).push(query_param(spec_items[i - 1])));
        assert(spec_items.subrange(0, i as int).map_values(|p: Seq<char>| query_param(p))
            == spec_items.subrange(0, i - 1).map_values(|p: Seq<char>| query_param(p)).push(
            query_param(spec_items[i - 1]),
        ));
    }
    assert(spec_items.subrange(0, items@.len() as int) == spec_items);
    r
}

/// The value of the last parameter named `key`.
pub fn query_get(params: &Vec<QueryParam>, key: &str) -> (r: Option<String>)
    ensures
        match query_value(params_view(params@), key@) {
            Some(v) => r matches Some(s) && s@ == v,
            None => r is None,
        },
{
    let key_chars = str_chars(key);
    let mut i: usize = params.len();
    assert(params@.subrange(0, i as int) == params@);
    while i > 0
        invariant
            i <= params@.len(),
            key_chars@ == key@,
            query_value(params_view(params@), key@) == query_value(
                params_view(params@.subrange(0, i as int)),
                key@,
            ),
        decreases i,
    {
        assert(params_view(params@.subrange(0, i as int)).drop_last() == params_view(
            params@.subrange(0, i - 1),
        ));
        assert(params_view(params@.subrange(0, i as int)).last() == (
            params@[i - 1].key@,
            params@[i - 1].value@,
        ));
        let k = str_chars(params[i - 1].key.as_str());
        let ghost pv = params_view(params@.subrange(0, i as int));
        assert(pv.len() == i);
        if chars_eq(k.as_slice(), key_chars.as_slice()) {
            assert(pv.last().0 == key@);
            assert(query_value(pv, key@) == Some(pv.last().1));
            return Some(params[i - 1].value.clone());
        }
        assert(query_value(pv, key@) == query_value(pv.drop_last(), key@));
        i = i - 1;
    }
    None
}

} // verus!
