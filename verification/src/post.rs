//! Posts: the gated write action's append-only records, their field
//! validation, and the newest-first listing order.

use vstd::prelude::*;
use vstd::seq_lib::group_to_multiset_ensures;
use vstd::utf8::encode_utf8;
use crate::errors::ValidationFault;
use crate::text::trim_of;

verus! {

/// The byte ceiling on a post title.
pub const MAX_TITLE_BYTES: usize = 200;

/// The byte ceiling on a post content body.
pub const MAX_CONTENT_BYTES: usize = 5000;

/// A published post. Append-only: never mutated or deleted once created.
pub struct Post {
    pub id: String,
    pub title: String,
    pub content: String,
    pub author: String,
    pub created_at: u64,
    pub author_verified: bool,
}

/// The mathematical value of a [`Post`].
pub struct PostView {
    pub id: Seq<char>,
    pub title: Seq<char>,
    pub content: Seq<char>,
    pub author: Seq<char>,
    pub created_at: u64,
    pub author_verified: bool,
}

impl View for Post {
    type V = PostView;

    open spec fn view(&self) -> PostView {
        PostView {
            id: self.id@,
            title: self.title@,
            content: self.content@,
            author: self.author@,
            created_at: self.created_at,
            author_verified: self.author_verified,
        }
    }
}

impl Clone for Post {
    fn clone(&self) -> (r: Self)
        ensures
            r == *self,
    {
        Post {
            id: self.id.clone(),
            title: self.title.clone(),
            content: self.content.clone(),
            author: self.author.clone(),
            created_at: self.created_at,
            author_verified: self.author_verified,
        }
    }
}

/// The field fault a submitted title/content pair carries, if any: emptiness
/// (after trimming) is checked first, then the title's byte ceiling, then
/// the content's.
pub open spec fn post_fault(title: Seq<char>, content: Seq<char>) -> Option<ValidationFault> {
    if trim_of(title).len() == 0 || trim_of(content).len() == 0 {
        Some(ValidationFault::MissingText)
    } else if encode_utf8(title).len() as usize > MAX_TITLE_BYTES {
        Some(ValidationFault::TitleTooLong)
    } else if encode_utf8(content).len() as usize > MAX_CONTENT_BYTES {
        Some(ValidationFault::ContentTooLong)
    } else {
        None
    }
}

/// The newest-first listing order: `created_at` never increases along the
/// sequence.
pub open spec fn sorted_newest_first(s: Seq<PostView>) -> bool {
    forall|i: int, j: int| 0 <= i <= j < s.len() ==> s[i].created_at >= s[j].created_at
}

/// The views of a sequence of posts.
pub open spec fn views_of(s: Seq<Post>) -> Seq<PostView> {
    s.map_values(|p: Post| p@)
}

proof fn lemma_to_multiset_insert(s: Seq<PostView>, j: int, p: PostView)
    requires
        0 <= j <= s.len(),
    ensures
        s.insert(j, p).to_multiset() == s.to_multiset().insert(p),
    decreases s.len(),
{
    broadcast use group_to_multiset_ensures;

    let s2 = s.insert(j, p);
    assert(s2.remove(j) =~= s);
    assert(s2[j] == p);
    assert(s2.remove(j).to_multiset() =~= s2.to_multiset().remove(p));
    assert(s2.contains(p));
    assert(s2.to_multiset().count(p) > 0);
    assert forall|q: PostView| true implies s2.to_multiset().count(q) == s.to_multiset().insert(
        p,
    ).count(q) by {
        if q == p {
            assert(s.to_multiset().count(p) == s2.to_multiset().count(p) - 1);
        } else {
            assert(s.to_multiset().count(q) == s2.to_multiset().count(q));
        }
    }
    assert(s2.to_multiset() =~= s.to_multiset().insert(p));
}

/// Copies `posts` into newest-first order: the result is a permutation of
/// the input, sorted by `created_at`, never increasing.
pub fn sort_posts_newest_first(posts: &Vec<Post>) -> (r: Vec<Post>)
    ensures
        sorted_newest_first(views_of(r@)),
        views_of(r@).to_multiset() == views_of(posts@).to_multiset(),
{
    broadcast use group_to_multiset_ensures;

    let mut r: Vec<Post> = Vec::new();
    let mut i: usize = 0;
    proof {
        assert(views_of(r@) =~= Seq::<PostView>::empty());
        assert(views_of(posts@).subrange(0, 0) =~= Seq::<PostView>::empty());
    }
    while i < posts.len()
        invariant
            i <= posts@.len(),
            sorted_newest_first(views_of(r@)),
            views_of(r@).to_multiset() == views_of(posts@).subrange(0, i as int).to_multiset(),
        decreases posts@.len() - i,
    {
        let p = posts[i].clone();
        let ghost pre = r@;
        let mut j: usize = 0;
        while j < r.len() && r[j].created_at >= p.created_at
            invariant
                j <= r@.len(),
                r@ == pre,
                forall|a: int| 0 <= a < j ==> r@[a].created_at >= p.created_at,
            decreases r@.len() - j,
        {
            j += 1;
        }
        proof {
            assert forall|a: int| j <= a < r@.len() implies r@[a].created_at
                <= p.created_at by {
                if j < r@.len() {
                    assert(views_of(r@)[j as int].created_at >= views_of(r@)[a].created_at);
                }
            }
        }
        r.insert(j, p);
        proof {
            assert forall|a: int, b: int|
                0 <= a <= b < r@.len() implies views_of(r@)[a].created_at >= views_of(
                r@,
            )[b].created_at by {
                if a < j && b < j {
                    assert(views_of(pre)[a].created_at >= views_of(pre)[b].created_at);
                } else if a < j {
                    assert(pre[a].created_at >= p.created_at);
                    if b > j {
                        assert(pre[b - 1].created_at <= p.created_at);
                    }
                } else if a == j {
                    if b > j {
                        assert(pre[b - 1].created_at <= p.created_at);
                    }
                } else {
                    assert(views_of(pre)[a - 1].created_at >= views_of(pre)[b - 1].created_at);
                }
            }
            assert(views_of(r@) =~= views_of(pre).insert(j as int, p@));
            lemma_to_multiset_insert(views_of(pre), j as int, p@);
            assert(views_of(posts@).subrange(0, i + 1) =~= views_of(posts@).subrange(
                0,
                i as int,
            ).push(views_of(posts@)[i as int]));
            vstd::seq_lib::to_multiset_build(
                views_of(posts@).subrange(0, i as int),
                views_of(posts@)[i as int],
            );
        }
        i += 1;
    }
    proof {
        assert(views_of(posts@).subrange(0, views_of(posts@).len() as int) =~= views_of(posts@));
    }
    r
}

} // verus!
