//! The statistics file of a manga and the record of its scanlation groups.

use vstd::prelude::*;
use vstd::string::*;
use crate::metadata::{get_dist, rating_count, RatingDistribution};
use crate::text::{dec, push_dec, str_eq};

verus! {

/// The distribution lines of scores one to ten.
pub open spec fn dist_lines(d: RatingDistribution, from: nat) -> Seq<char>
    decreases 11 - from,
{
    if from >= 11 || from < 1 {
        seq![]
    } else {
        dec(from) + ": "@ + dec(rating_count(d, from) as nat) + "\n\n"@ + dist_lines(d, from + 1)
    }
}

/// The comment thread of a manga: its id and how many replies it has.
#[derive(Debug, Clone, Copy)]
pub struct CommentThread {
    pub thread_id: u64,
    pub replies_count: u64,
}

/// The statistics file (`_statistics.md`) of a manga: its name, its rating and Bayesian
/// rating (as the texts given), the distribution of scores, its follows and, when it has
/// one, its comment thread.
pub open spec fn statistics_spec(
    name: Seq<char>,
    average: Seq<char>,
    bayesian: Seq<char>,
    d: RatingDistribution,
    follows: u64,
    comments: Option<CommentThread>,
) -> Seq<char> {
    "# "@ + name + "\n\n"@ + "---\n\n## RATING\n\nRating: "@ + average + "\n\n"@ + "Bayesian: "@ + bayesian
        + "\n\n---\n\n"@ + dist_lines(d, 1) + "## Follows: "@ + dec(follows as nat) + "\n\n"@ + match comments {
        Some(c) => "## Comments\n\nThread: <https://forums.mangadex.org/threads/"@ + dec(c.thread_id as nat)
            + ">\n\nNumber of comments in thread: "@ + dec(c.replies_count as nat) + "\n"@,
        None => seq![],
    }
}

/// Builds the statistics file (see [`statistics_spec`]); the ratings come as text.
pub fn statistics_markdown(
    name: &str,
    average: &str,
    bayesian: &str,
    distribution: &RatingDistribution,
    follows: u64,
    comments: Option<CommentThread>,
) -> (r: String)
    ensures
        r@ == statistics_spec(name@, average@, bayesian@, *distribution, follows, comments),
{
    let mut data = String::from_str("# ");
    data.append(name);
    data.append("\n\n");
    data.append("---\n\n## RATING\n\nRating: ");
    data.append(average);
    data.append("\n\n");
    data.append("Bayesian: ");
    data.append(bayesian);
    data.append("\n\n---\n\n");
    let ghost head = data@;
    let mut i: usize = 1;
    while i < 11
        invariant
            1 <= i <= 11,
            data@ + dist_lines(*distribution, i as nat) == head + dist_lines(*distribution, 1),
        decreases 11 - i,
    {
        let line = get_dist(distribution, i);
        let ghost before = data@;
        data.append(line.as_str());
        assert(dist_lines(*distribution, i as nat) == line@ + dist_lines(*distribution, (i + 1) as nat));
        assert(before + dist_lines(*distribution, i as nat) == data@ + dist_lines(*distribution, (i + 1) as nat));
        i = i + 1;
    }
    assert(dist_lines(*distribution, 11) =~= Seq::<char>::empty());
    assert(data@ + Seq::<char>::empty() == data@);
    data.append("## Follows: ");
    push_dec(&mut data, follows);
    data.append("\n\n");
    match comments {
        Some(c) => {
            data.append("## Comments\n\nThread: <https://forums.mangadex.org/threads/");
            push_dec(&mut data, c.thread_id);
            data.append(">\n\nNumber of comments in thread: ");
            push_dec(&mut data, c.replies_count);
            data.append("\n");
        },
        None => {},
    }
    data
}

/// A scanlation group as the program records it: its name (`Unknown` when the group has
/// none, and then no website) and its website (`None` when it gives none).
pub fn group_metadata(name: &Option<String>, website: &Option<String>) -> (r: (String, String))
    ensures
        match name {
            None => r.0@ == "Unknown"@ && r.1@.len() == 0,
            Some(n) => r.0@ == n@ && r.1@ == match website {
                Some(w) => w@,
                None => "None"@,
            },
        },
{
    match name {
        None => (String::from_str("Unknown"), String::new()),
        Some(n) => (
            n.clone(),
            match website {
                Some(w) => w.clone(),
                None => String::from_str("None"),
            },
        ),
    }
}

/// The line added to a manga's `_scanlation_groups.txt` for a group: `<name> - <website>`;
/// none for the placeholder group `null`.
pub fn group_line(name: &str, website: &str) -> (r: Option<String>)
    ensures
        name@ == "null"@ ==> r is None,
        name@ != "null"@ ==> (r matches Some(l) && l@ == name@ + " - "@ + website@ + "\n"@),
{
    if str_eq(name, "null") {
        return None;
    }
    let mut line = String::from_str(name);
    line.append(" - ");
    line.append(website);
    line.append("\n");
    Some(line)
}

} // verus!
