//! Post metadata and the front-page ordering: posts are listed by
//! publication date, newest first.

use vstd::prelude::*;
use vstd::multiset::{Multiset, group_multiset_axioms};
use vstd::seq_lib::group_to_multiset_ensures;

use crate::date::{PostDate, date_le, spec_date_le};

verus! {

/// How a post's body is laid out.
#[derive(Debug, Clone, Copy, PartialEq, Eq, Hash, Structural)]
pub enum PostLayout {
    Prose,
    Full,
}

impl Default for PostLayout {
    /// The layout used when the front matter declares none.
    fn default() -> (layout: Self)
        ensures
            layout == PostLayout::Prose,
    {
        PostLayout::Prose
    }
}

/// The front matter of one post, together with the source file name
/// it was read from.
#[derive(Debug, Clone, PartialEq, Eq, Hash)]
pub struct PostMetadata {
    pub title: String,
    pub date: PostDate,
    pub desc: String,
    pub tags: Vec<String>,
    pub layout: PostLayout,
    pub render_math: bool,
    pub filename: String,
}

/// Newest first: every post is dated no earlier than those after it.
pub open spec fn sorted_newest_first(posts: Seq<PostMetadata>) -> bool {
    forall|i: int, j: int|
        #![trigger posts[i], posts[j]]
        0 <= i < j < posts.len() ==> spec_date_le(posts[j].date, posts[i].date)
}

/// Orders posts by date, newest first: the result holds exactly the
/// given posts, rearranged.
pub fn sort_posts_by_date(posts: Vec<PostMetadata>) -> (sorted: Vec<PostMetadata>)
    ensures
        sorted@.to_multiset() == posts@.to_multiset(),
        sorted_newest_first(sorted@),
{
    let mut rest = posts;
    let mut sorted: Vec<PostMetadata> = Vec::new();
    proof {
        broadcast use group_multiset_axioms, group_to_multiset_ensures;

        assert(sorted@.to_multiset() =~= Multiset::<PostMetadata>::empty());
        assert(sorted@.to_multiset().add(rest@.to_multiset()) =~= rest@.to_multiset());
    }
    while rest.len() > 0
        invariant
            sorted@.to_multiset().add(rest@.to_multiset()) == posts@.to_multiset(),
            sorted_newest_first(sorted@),
            forall|i: int, j: int|
                #![trigger sorted@[i], rest@[j]]
                0 <= i < sorted@.len() && 0 <= j < rest@.len() ==> spec_date_le(
                    rest@[j].date,
                    sorted@[i].date,
                ),
        decreases rest@.len(),
    {
        let mut newest: usize = 0;
        let mut k: usize = 1;
        while k < rest.len()
            invariant
                0 <= newest < k <= rest@.len(),
                forall|i: int|
                    0 <= i < k ==> spec_date_le(#[trigger] rest@[i].date, rest@[newest as int].date),
        decreases rest@.len() - k,
        {
            if date_le(&rest[newest].date, &rest[k].date) {
                newest = k;
            }
            k += 1;
        }
        let ghost rest_before = rest@;
        let ghost sorted_before = sorted@;
        let pick = rest.remove(newest);
        sorted.push(pick);
        proof {
            broadcast use group_multiset_axioms, group_to_multiset_ensures;

            assert(rest_before.remove(newest as int).to_multiset() =~= rest_before.to_multiset()
                .remove(rest_before[newest as int]));
            assert(sorted_before.push(pick).to_multiset() =~= sorted_before.to_multiset().insert(
                pick,
            ));
            assert(rest_before.contains(pick));
            assert(rest_before.to_multiset().count(pick) > 0);
            assert(sorted@.to_multiset().add(rest@.to_multiset()) =~= posts@.to_multiset());
        }
    }
    sorted
}

} // verus!
