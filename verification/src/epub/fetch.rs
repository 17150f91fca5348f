//! Deciding, page after page, how to go on fetching a creator's posts: the
//! API gives pages of up to 50 posts at offsets 0, 50, 100, ...

use vstd::prelude::*;
use crate::epub::{Creator, Post};

verus! {

/// What to do after a page of posts arrived.
#[derive(Debug, PartialEq, Eq, Structural, Clone, Copy)]
pub enum FetchStep {
    /// The page was empty: there are no more posts.
    EmptyPage,
    /// The page was kept and the requested number of pages is reached.
    ReachedLimit,
    /// The page was kept; fetch the page at this offset next.
    NextPage(u32),
    /// The page was kept, but the next offset or the limit does not fit in a `u32`.
    Overflow,
}

/// The creator's posts after a non-empty page was added after them.
pub open spec fn posts_with_page(posts: Option<Vec<Post>>, page: Seq<Post>) -> Seq<Post> {
    match posts {
        Some(v) => v@ + page,
        None => page,
    }
}

/// The decision after a non-empty page at `offset` when at most `max` pages are wanted.
pub open spec fn next_fetch(offset: u32, max: u32) -> FetchStep {
    if offset + 50 > u32::MAX || max * 50 > u32::MAX {
        FetchStep::Overflow
    } else if offset + 50 > max * 50 {
        FetchStep::ReachedLimit
    } else {
        FetchStep::NextPage((offset + 50) as u32)
    }
}

/// Whenever the next offset and the limit fit in a `u32`, fetching goes on
/// exactly while the next offset is within `max` pages of 50 posts; in
/// particular, asking for all pages (65535) never stops at the first pages.
pub proof fn law_next_fetch(offset: u32, max: u32)
    ensures
        offset + 50 <= u32::MAX && max * 50 <= u32::MAX ==> {
            &&& offset + 50 > max * 50 ==> next_fetch(offset, max) == FetchStep::ReachedLimit
            &&& offset + 50 <= max * 50 ==> next_fetch(offset, max) == FetchStep::NextPage(
                (offset + 50) as u32,
            )
        },
        max == 65535 && offset + 50 <= 65535 * 50 ==> next_fetch(offset, max)
            == FetchStep::NextPage((offset + 50) as u32),
{
}

/// A page of posts is added after the posts already there, all of it and in
/// order: the list grows by the page's length and the earlier posts stay first.
pub proof fn law_pages_accumulate(posts: Option<Vec<Post>>, page: Seq<Post>)
    ensures
        ({
            let before = match posts {
                Some(v) => v@,
                None => Seq::<Post>::empty(),
            };
            let after = posts_with_page(posts, page);
            &&& after.len() == before.len() + page.len()
            &&& forall|i: int| 0 <= i < before.len() ==> after[i] == before[i]
            &&& forall|j: int| 0 <= j < page.len() ==> after[before.len() + j] == page[j]
        }),
{
}

impl Creator {
    /// Takes the page of posts fetched at `offset`: an empty page ends the
    /// fetching, a non-empty one is added after the posts already there.
    pub fn take_page(&mut self, page: Vec<Post>, offset: u32, max: u32) -> (step: FetchStep)
        ensures
            page@.len() == 0 ==> step == FetchStep::EmptyPage && *final(self) == *old(self),
            page@.len() > 0 ==> {
                &&& step == next_fetch(offset, max)
                &&& (offset + 50 <= u32::MAX && max * 50 <= u32::MAX) ==> step == (if offset + 50
                    > max * 50 {
                    FetchStep::ReachedLimit
                } else {
                    FetchStep::NextPage((offset + 50) as u32)
                })
                &&& final(self).posts matches Some(v) && v@ == posts_with_page(
                    old(self).posts,
                    page@,
                )
                &&& final(self).id == old(self).id
                &&& final(self).name == old(self).name
                &&& final(self).service == old(self).service
                &&& final(self).indexed == old(self).indexed
                &&& final(self).updated == old(self).updated
                &&& final(self).public_id == old(self).public_id
                &&& final(self).relation_id == old(self).relation_id
            },
    {
        if page.len() == 0 {
            return FetchStep::EmptyPage;
        }
        let mut page = page;
        match self.posts.take() {
            Some(mut v) => {
                v.append(&mut page);
                self.posts = Some(v);
            },
            None => {
                self.posts = Some(page);
            },
        }
        if offset > u32::MAX - 50 || max > u32::MAX / 50 {
            return FetchStep::Overflow;
        }
        let next = offset + 50;
        if next > max * 50 {
            FetchStep::ReachedLimit
        } else {
            FetchStep::NextPage(next)
        }
    }
}

} // verus!
