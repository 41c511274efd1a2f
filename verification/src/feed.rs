//! Paging through a manga's chapter feed.

use vstd::prelude::*;
use crate::metadata::ChapterResponse;

verus! {

/// Where a feed download stands: the requested start offset, how many full pages have
/// come back, and the chapters of every page so far, in the order the pages came.
pub struct FeedState {
    pub offset: u32,
    pub times: u32,
    pub chapters: Vec<ChapterResponse>,
}

/// What to do next while paging through a feed.
#[derive(Debug, Clone, Copy, PartialEq, Eq)]
pub enum FeedAction {
    /// Request the page that starts at this offset.
    Fetch(u32),
    /// Stop: the state holds the chapters of all pages; `count` is the number of chapters
    /// on the last page.
    Finish { count: usize },
}

/// Offset of the page requested after `times` full pages.
pub open spec fn page_offset(offset: u32, times: u32) -> int {
    offset + 500 * times
}

/// Starts paging at `offset`, with no chapters yet.
pub fn feed_start(offset: u32) -> (r: (FeedState, FeedAction))
    ensures
        r.0.offset == offset,
        r.0.times == 0,
        r.0.chapters@ == Seq::<ChapterResponse>::empty(),
        r.1 == FeedAction::Fetch(offset),
{
    (FeedState { offset, times: 0, chapters: Vec::new() }, FeedAction::Fetch(offset))
}

/// Handles a returned page: `page` holds the chapters of its `data` array (`None` when it
/// has none), which are appended to those gathered so far. A full page of 500 asks for the
/// next one; otherwise paging ends.
pub fn feed_on_page(state: &mut FeedState, page: Option<Vec<ChapterResponse>>) -> (r: FeedAction)
    requires
        page_offset(old(state).offset, (old(state).times + 1) as u32) <= u32::MAX,
        old(state).times < u32::MAX,
    ensures
        final(state).offset == old(state).offset,
        match page {
            Some(p) => {
                &&& final(state).chapters@ == old(state).chapters@ + p@
                &&& if p.len() >= 500 {
                    &&& final(state).times == old(state).times + 1
                    &&& r == FeedAction::Fetch((old(state).offset + 500 * (old(state).times + 1)) as u32)
                } else {
                    &&& final(state).times == old(state).times
                    &&& r == (FeedAction::Finish { count: p.len() })
                }
            },
            None => {
                &&& final(state).chapters@ == old(state).chapters@
                &&& final(state).times == old(state).times
                &&& r == (FeedAction::Finish { count: 0 })
            },
        },
{
    match page {
        Some(p) => {
            let n = p.len();
            let mut p = p;
            state.chapters.append(&mut p);
            if n >= 500 {
                state.times = state.times + 1;
                FeedAction::Fetch(state.offset + 500 * state.times)
            } else {
                FeedAction::Finish { count: n }
            }
        },
        None => FeedAction::Finish { count: 0 },
    }
}

} // verus!
