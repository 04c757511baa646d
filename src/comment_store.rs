use std::collections::HashMap;
use vstd::prelude::*;

verus! {

broadcast use vstd::std_specs::hash::group_hash_axioms;

/// A comment on a post. Its identifier is unique within that post's thread.
#[derive(Clone, Debug, PartialEq, Eq)]
pub struct Comment {
    pub id: u32,
    pub post_id: u32,
    pub text: String,
}

/// The mathematical value of a `Comment`.
pub ghost struct CommentView {
    pub id: u32,
    pub post_id: u32,
    pub text: Seq<char>,
}

impl View for Comment {
    type V = CommentView;

    open spec fn view(&self) -> CommentView {
        CommentView { id: self.id, post_id: self.post_id, text: self.text@ }
    }
}

impl Comment {
    /// A field-by-field copy of this comment.
    pub fn duplicate(&self) -> (r: Comment)
        ensures
            r@ == self@,
    {
        Comment { id: self.id, post_id: self.post_id, text: self.text.clone() }
    }
}

/// The values of a sequence of comments.
pub open spec fn comment_views(s: Seq<Comment>) -> Seq<CommentView> {
    s.map_values(|c: Comment| c@)
}

/// The thread of `post_id` in `threads`: empty where none was started.
pub open spec fn thread_of(threads: Map<u32, Seq<CommentView>>, post_id: u32) -> Seq<CommentView> {
    if threads.contains_key(post_id) {
        threads[post_id]
    } else {
        Seq::empty()
    }
}

/// Each thread is stored under its post, and its comments carry the
/// identifiers `1, 2, 3, ...` in order of appending.
pub open spec fn threads_wf(threads: Map<u32, Seq<CommentView>>) -> bool {
    forall|k: u32| #[trigger]
        threads.contains_key(k) ==> {
            &&& threads[k].len() <= u32::MAX
            &&& forall|i: int|
                0 <= i < threads[k].len() ==> #[trigger] threads[k][i].id == i + 1
                    && threads[k][i].post_id == k
        }
}

/// The comment that `append` adds to the thread of `post_id` in `threads`.
pub open spec fn appended(threads: Map<u32, Seq<CommentView>>, post_id: u32, text: Seq<char>) -> CommentView {
    CommentView { id: (thread_of(threads, post_id).len() + 1) as u32, post_id, text }
}

/// The threads after `append(post_id, text)`.
pub open spec fn after_append(threads: Map<u32, Seq<CommentView>>, post_id: u32, text: Seq<char>) -> Map<
    u32,
    Seq<CommentView>,
> {
    threads.insert(post_id, thread_of(threads, post_id).push(appended(threads, post_id, text)))
}

/// Appending to a thread and then listing it gives the thread with the new
/// comment last; for the `n`-th append to a post the identifiers listed are
/// `1..=n`. The threads of other posts are left as they were.
pub proof fn lemma_append_then_list(
    threads: Map<u32, Seq<CommentView>>,
    post_id: u32,
    text: Seq<char>,
)
    requires
        threads_wf(threads),
        thread_of(threads, post_id).len() < u32::MAX,
    ensures
        threads_wf(after_append(threads, post_id, text)),
        thread_of(after_append(threads, post_id, text), post_id).len() == thread_of(
            threads,
            post_id,
        ).len() + 1,
        thread_of(after_append(threads, post_id, text), post_id).last() == (CommentView {
            id: (thread_of(threads, post_id).len() + 1) as u32,
            post_id,
            text,
        }),
        forall|i: int|
            0 <= i < thread_of(after_append(threads, post_id, text), post_id).len() ==> #[trigger]
            thread_of(after_append(threads, post_id, text), post_id)[i].id == i + 1,
        forall|k: u32|
            k != post_id ==> #[trigger] thread_of(after_append(threads, post_id, text), k)
                == thread_of(threads, k),
{
    let after = after_append(threads, post_id, text);
    let before = thread_of(threads, post_id);
    let t = thread_of(after, post_id);
    assert(t == before.push(appended(threads, post_id, text)));
    assert forall|i: int| 0 <= i < t.len() implies #[trigger] t[i].id == i + 1 && t[i].post_id
        == post_id by {
        if i < t.len() - 1 {
            assert(threads.contains_key(post_id));
            assert(t[i] == before[i]);
        }
    }
    assert forall|k: u32| #[trigger] after.contains_key(k) implies {
        &&& after[k].len() <= u32::MAX
        &&& forall|i: int|
            0 <= i < after[k].len() ==> #[trigger] after[k][i].id == i + 1 && after[k][i].post_id
                == k
    } by {
        if k != post_id {
            assert(threads.contains_key(k));
            assert(after[k] == threads[k]);
        } else {
            assert(after[k] == t);
        }
    }
}

/// Comment threads held by post identifier. The post need not exist.
pub struct CommentStore {
    threads: HashMap<u32, Vec<Comment>>,
}

impl View for CommentStore {
    type V = Map<u32, Seq<CommentView>>;

    closed spec fn view(&self) -> Map<u32, Seq<CommentView>> {
        self.threads@.map_values(|v: Vec<Comment>| comment_views(v@))
    }
}

/// A copy of each comment of `v`, in order.
fn copy_thread(v: &Vec<Comment>) -> (r: Vec<Comment>)
    ensures
        comment_views(r@) == comment_views(v@),
{
    let mut out: Vec<Comment> = Vec::new();
    let mut i: usize = 0;
    while i < v.len()
        invariant
            i <= v@.len(),
            out@.len() == i,
            forall|j: int| 0 <= j < i ==> #[trigger] out@[j]@ == v@[j]@,
        decreases v@.len() - i,
    {
        out.push(v[i].duplicate());
        i = i + 1;
    }
    assert(comment_views(out@) =~= comment_views(v@));
    out
}

impl CommentStore {
    /// The store's well-formedness: its threads are well formed.
    pub open spec fn wf(&self) -> bool {
        threads_wf(self@)
    }

    /// An empty store.
    pub fn new() -> (r: CommentStore)
        ensures
            r.wf(),
            r@ == Map::<u32, Seq<CommentView>>::empty(),
    {
        let r = CommentStore { threads: HashMap::new() };
        assert(r@ =~= Map::<u32, Seq<CommentView>>::empty());
        r
    }

    /// The number of comments on `post_id`.
    pub fn count_for(&self, post_id: u32) -> (r: usize)
        requires
            self.wf(),
        ensures
            r == thread_of(self@, post_id).len(),
    {
        match self.threads.get(&post_id) {
            Some(t) => t.len(),
            None => 0,
        }
    }

    /// Whether one more comment on `post_id` can be given an identifier
    /// that fits in `u32`.
    pub fn has_room_for(&self, post_id: u32) -> (r: bool)
        requires
            self.wf(),
        ensures
            r == (thread_of(self@, post_id).len() < u32::MAX),
    {
        self.count_for(post_id) < u32::MAX as usize
    }

    /// Appends a comment to the thread of `post_id`, starting the thread if
    /// there is none, and returns it. Its identifier is one more than the
    /// number of comments the thread held.
    pub fn append(&mut self, post_id: u32, text: String) -> (r: Comment)
        requires
            old(self).wf(),
            thread_of(old(self)@, post_id).len() < u32::MAX,
        ensures
            final(self).wf(),
            r@ == appended(old(self)@, post_id, text@),
            final(self)@ == after_append(old(self)@, post_id, text@),
    {
        let ghost before = self@;
        let mut thread: Vec<Comment> = match self.threads.remove(&post_id) {
            Some(t) => t,
            None => Vec::new(),
        };
        assert(comment_views(thread@) =~= thread_of(before, post_id));
        let id: u32 = (thread.len() as u32) + 1;
        let c = Comment { id, post_id, text };
        let r = c.duplicate();
        thread.push(c);
        self.threads.insert(post_id, thread);
        assert(self@ =~= after_append(before, post_id, r@.text)) by {
            assert(comment_views(thread@) =~= thread_of(before, post_id).push(r@));
        }
        proof {
            lemma_append_then_list(before, post_id, r@.text);
        }
        r
    }

    /// The comments on `post_id` in the order they were appended; empty
    /// where there are none.
    pub fn list_for(&self, post_id: u32) -> (r: Vec<Comment>)
        requires
            self.wf(),
        ensures
            comment_views(r@) == thread_of(self@, post_id),
    {
        match self.threads.get(&post_id) {
            Some(t) => copy_thread(t),
            None => {
                let r: Vec<Comment> = Vec::new();
                assert(comment_views(r@) =~= thread_of(self@, post_id));
                r
            },
        }
    }
}

} // verus!
