use std::collections::HashMap;
use vstd::prelude::*;

verus! {

broadcast use vstd::std_specs::hash::group_hash_axioms;

/// A blog post: identifier, title and body.
#[derive(Clone, Debug, PartialEq, Eq)]
pub struct Post {
    pub id: u32,
    pub title: String,
    pub body: String,
}

/// The mathematical value of a `Post`.
pub ghost struct PostView {
    pub id: u32,
    pub title: Seq<char>,
    pub body: Seq<char>,
}

impl View for Post {
    type V = PostView;

    open spec fn view(&self) -> PostView {
        PostView { id: self.id, title: self.title@, body: self.body@ }
    }
}

impl Post {
    /// A field-by-field copy of this post.
    pub fn duplicate(&self) -> (r: Post)
        ensures
            r@ == self@,
    {
        Post { id: self.id, title: self.title.clone(), body: self.body.clone() }
    }
}

/// The post that `insert` adds to a store whose contents are `posts`.
pub open spec fn inserted(posts: Seq<PostView>, title: Seq<char>, body: Seq<char>) -> PostView {
    PostView { id: (posts.len() + 1) as u32, title, body }
}

/// What `get` finds for `id` in a store whose contents are `posts`.
pub open spec fn post_at(posts: Seq<PostView>, id: u32) -> Option<PostView> {
    if 1 <= id && id <= posts.len() {
        Some(posts[id - 1])
    } else {
        None
    }
}

/// The values of a sequence of posts.
pub open spec fn post_views(s: Seq<Post>) -> Seq<PostView> {
    s.map_values(|p: Post| p@)
}

/// Whether some post of `posts` has identifier `id`.
pub open spec fn has_id(posts: Seq<PostView>, id: u32) -> bool {
    exists|i: int| 0 <= i < posts.len() && posts[i].id == id
}

/// The contents of a store after inserting each `(title, body)` of `items`
/// in turn, starting from contents `posts`.
pub open spec fn insert_all(posts: Seq<PostView>, items: Seq<(Seq<char>, Seq<char>)>) -> Seq<
    PostView,
>
    decreases items.len(),
{
    if items.len() == 0 {
        posts
    } else {
        let before = insert_all(posts, items.drop_last());
        before.push(inserted(before, items.last().0, items.last().1))
    }
}

/// Inserting into an empty store gives the `i`-th call (counting from zero)
/// the identifier `i + 1`, and keeps each post as it was given.
pub proof fn lemma_insert_ids_in_call_order(items: Seq<(Seq<char>, Seq<char>)>)
    requires
        items.len() <= u32::MAX,
    ensures
        insert_all(Seq::empty(), items).len() == items.len(),
        forall|i: int|
            0 <= i < items.len() ==> #[trigger] insert_all(Seq::empty(), items)[i] == (PostView {
                id: (i + 1) as u32,
                title: items[i].0,
                body: items[i].1,
            }),
    decreases items.len(),
{
    if items.len() > 0 {
        lemma_insert_ids_in_call_order(items.drop_last());
        assert forall|i: int| 0 <= i < items.len() - 1 implies items.drop_last()[i] == items[i] by {}
    }
}

/// After any sequence of inserts into an empty store, `get` on an identifier
/// that one of them returned finds that post as it was inserted, and `get` on
/// any other identifier finds nothing.
pub proof fn lemma_get_after_inserts(items: Seq<(Seq<char>, Seq<char>)>, id: u32)
    requires
        items.len() <= u32::MAX,
    ensures
        1 <= id <= items.len() ==> post_at(insert_all(Seq::empty(), items), id) == Some(
            PostView { id, title: items[id - 1].0, body: items[id - 1].1 },
        ),
        !(1 <= id <= items.len()) ==> post_at(insert_all(Seq::empty(), items), id) is None,
{
    lemma_insert_ids_in_call_order(items);
    if 1 <= id <= items.len() {
        assert(insert_all(Seq::empty(), items)[id - 1] == (PostView {
            id: ((id - 1) + 1) as u32,
            title: items[id - 1].0,
            body: items[id - 1].1,
        }));
    }
}

/// However many inserts are made, and in whatever order the callers' requests
/// were serialised, the identifiers given out are pairwise distinct and are
/// exactly `1..=n` for `n` inserts.
pub proof fn lemma_insert_ids_distinct_without_gaps(items: Seq<(Seq<char>, Seq<char>)>)
    requires
        items.len() <= u32::MAX,
    ensures
        forall|i: int, j: int|
            0 <= i < items.len() && 0 <= j < items.len() && i != j ==> #[trigger] insert_all(
                Seq::empty(),
                items,
            )[i].id != #[trigger] insert_all(Seq::empty(), items)[j].id,
        forall|id: u32|
            #[trigger] has_id(insert_all(Seq::empty(), items), id) <==> 1 <= id <= items.len(),
{
    lemma_insert_ids_in_call_order(items);
    let posts = insert_all(Seq::empty(), items);
    assert forall|id: u32| #[trigger] has_id(posts, id) <==> 1 <= id <= items.len() by {
        if 1 <= id <= items.len() {
            assert(posts[id - 1].id == id);
        }
    }
}

/// Posts held by identifier. Identifiers are handed out as `1, 2, 3, ...`
/// in order of insertion.
pub struct PostStore {
    posts: HashMap<u32, Post>,
}

impl View for PostStore {
    type V = Seq<PostView>;

    /// The posts in order of insertion: the post with identifier `i + 1`
    /// stands at index `i`.
    closed spec fn view(&self) -> Seq<PostView> {
        Seq::new(self.posts@.len(), |i: int| self.posts@[(i + 1) as u32]@)
    }
}

impl PostStore {
    /// The map holds exactly the identifiers `1..=len`, each under its own key.
    pub closed spec fn wf(&self) -> bool {
        &&& self.posts@.len() <= u32::MAX
        &&& forall|k: u32| #[trigger]
            self.posts@.contains_key(k) <==> 1 <= k && k <= self.posts@.len()
        &&& forall|k: u32| #[trigger]
            self.posts@.contains_key(k) ==> self.posts@[k].id == k
    }

    /// In every well-formed store the post at index `i` has identifier
    /// `i + 1`: identifiers run `1, 2, 3, ...` in order of insertion.
    pub proof fn lemma_ids_match_positions(&self)
        requires
            self.wf(),
        ensures
            forall|i: int| 0 <= i < self@.len() ==> #[trigger] self@[i].id == i + 1,
    {
        assert forall|i: int| 0 <= i < self@.len() implies #[trigger] self@[i].id == i + 1 by {
            assert(self.posts@.contains_key((i + 1) as u32));
        }
    }

    /// An empty store.
    pub fn new() -> (r: PostStore)
        ensures
            r.wf(),
            r@ == Seq::<PostView>::empty(),
    {
        let r = PostStore { posts: HashMap::new() };
        assert(r@ =~= Seq::<PostView>::empty());
        r
    }

    /// The number of posts held.
    pub fn len(&self) -> (r: usize)
        requires
            self.wf(),
        ensures
            r == self@.len(),
    {
        self.posts.len()
    }

    /// Whether one more post can be given an identifier that fits in `u32`.
    pub fn has_room(&self) -> (r: bool)
        requires
            self.wf(),
        ensures
            r == (self@.len() < u32::MAX),
    {
        self.posts.len() < u32::MAX as usize
    }

    /// Stores a new post whose identifier is one more than the number of
    /// posts held, and returns it.
    pub fn insert(&mut self, title: String, body: String) -> (r: Post)
        requires
            old(self).wf(),
            old(self)@.len() < u32::MAX,
        ensures
            final(self).wf(),
            r@ == inserted(old(self)@, title@, body@),
            final(self)@ == old(self)@.push(r@),
    {
        let ghost before = self@;
        let id: u32 = (self.posts.len() as u32) + 1;
        let post = Post { id, title, body };
        let r = post.duplicate();
        let ghost pv = post@;
        self.posts.insert(id, post);
        assert(self@ =~= before.push(pv)) by {
            assert forall|i: int| 0 <= i < before.len() implies self@[i] == before[i] by {
                assert(self.posts@[(i + 1) as u32] == old(self).posts@[(i + 1) as u32]);
            }
        }
        r
    }

    /// The post with identifier `id`, or `None` (not found) when the store
    /// holds no such post.
    pub fn get(&self, id: u32) -> (r: Option<Post>)
        requires
            self.wf(),
        ensures
            r is Some <==> post_at(self@, id) is Some,
            r is Some ==> post_at(self@, id) == Some(r->0@),
    {
        match self.posts.get(&id) {
            Some(p) => {
                assert(self@[id - 1] == self.posts@[id]@);
                Some(p.duplicate())
            },
            None => None,
        }
    }

    /// Every post held, in order of identifier.
    pub fn list(&self) -> (r: Vec<Post>)
        requires
            self.wf(),
        ensures
            post_views(r@) == self@,
    {
        let n: usize = self.posts.len();
        let mut out: Vec<Post> = Vec::new();
        let mut i: usize = 0;
        while i < n
            invariant
                self.wf(),
                n == self@.len(),
                i <= n,
                out@.len() == i,
                forall|j: int| 0 <= j < i ==> #[trigger] out@[j]@ == self@[j],
            decreases n - i,
        {
            let id: u32 = (i + 1) as u32;
            proof {
                assert(self.posts@.contains_key(id));
            }
            if let Some(p) = self.posts.get(&id) {
                out.push(p.duplicate());
            }
            i = i + 1;
        }
        assert(post_views(out@) =~= self@);
        out
    }
}

} // verus!
