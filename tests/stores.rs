use blog_store::{Comment, CommentStore, Post, PostStore};

fn s(x: &str) -> String {
    x.to_string()
}

#[test]
fn insert_ids_count_up_in_call_order() {
    let mut store = PostStore::new();
    for expected in 1u32..=5 {
        let p = store.insert(format!("t{}", expected), s("b"));
        assert_eq!(p.id, expected);
    }
    assert_eq!(store.len(), 5);
}

#[test]
fn insert_accepts_empty_strings() {
    let mut store = PostStore::new();
    let p = store.insert(s(""), s(""));
    assert_eq!(p, Post { id: 1, title: s(""), body: s("") });
}

#[test]
fn get_missing_is_not_found() {
    let mut store = PostStore::new();
    assert_eq!(store.get(0), None);
    assert_eq!(store.get(1), None);
    store.insert(s("a"), s("b"));
    assert_eq!(store.get(0), None);
    assert_eq!(store.get(2), None);
    assert_eq!(store.get(u32::MAX), None);
}

#[test]
fn get_returns_inserted_record() {
    let mut store = PostStore::new();
    let first = store.insert(s("first"), s("one"));
    let second = store.insert(s("second"), s("two"));
    assert_eq!(store.get(first.id), Some(first.clone()));
    assert_eq!(store.get(second.id), Some(second));
    assert_eq!(store.get(1).unwrap().title, "first");
}

#[test]
fn create_then_fetch_round_trip() {
    let mut store = PostStore::new();
    let created = store.insert(s("T"), s("B"));
    let fetched = store.get(created.id).unwrap();
    assert_eq!(fetched, Post { id: created.id, title: s("T"), body: s("B") });
}

#[test]
fn three_posts_and_a_thread() {
    let mut posts = PostStore::new();
    posts.insert(s("A"), s(""));
    posts.insert(s("B"), s(""));
    posts.insert(s("C"), s(""));
    let listed = posts.list();
    assert_eq!(listed.len(), 3);
    let mut ids: Vec<u32> = listed.iter().map(|p| p.id).collect();
    ids.sort();
    assert_eq!(ids, vec![1, 2, 3]);

    let mut comments = CommentStore::new();
    comments.append(2, s("x"));
    comments.append(2, s("y"));
    assert_eq!(
        comments.list_for(2),
        vec![
            Comment { id: 1, post_id: 2, text: s("x") },
            Comment { id: 2, post_id: 2, text: s("y") },
        ]
    );
}

#[test]
fn list_of_empty_store_is_empty() {
    let store = PostStore::new();
    assert!(store.list().is_empty());
    assert_eq!(store.len(), 0);
}

#[test]
fn list_follows_identifier_order() {
    let mut store = PostStore::new();
    store.insert(s("A"), s("a"));
    store.insert(s("B"), s("b"));
    let listed = store.list();
    assert_eq!(listed[0], Post { id: 1, title: s("A"), body: s("a") });
    assert_eq!(listed[1], Post { id: 2, title: s("B"), body: s("b") });
}

#[test]
fn list_for_without_comments_is_empty() {
    let mut comments = CommentStore::new();
    assert!(comments.list_for(1).is_empty());
    comments.append(3, s("hello"));
    assert!(comments.list_for(1).is_empty());
    assert_eq!(comments.count_for(1), 0);
}

#[test]
fn append_then_list_ends_with_new_comment() {
    let mut comments = CommentStore::new();
    for n in 1u32..=4 {
        let c = comments.append(9, format!("c{}", n));
        let thread = comments.list_for(9);
        assert_eq!(thread.last(), Some(&c));
        let ids: Vec<u32> = thread.iter().map(|c| c.id).collect();
        assert_eq!(ids, (1..=n).collect::<Vec<u32>>());
    }
}

#[test]
fn comment_ids_are_per_post() {
    let mut comments = CommentStore::new();
    let a = comments.append(1, s("a"));
    let b = comments.append(2, s("b"));
    let c = comments.append(1, s("c"));
    assert_eq!(a.id, 1);
    assert_eq!(b.id, 1);
    assert_eq!(c.id, 2);
    assert_eq!(comments.count_for(1), 2);
    assert_eq!(comments.count_for(2), 1);
}

#[test]
fn comments_need_no_existing_post() {
    let mut comments = CommentStore::new();
    let c = comments.append(12345, s("orphan"));
    assert_eq!(c, Comment { id: 1, post_id: 12345, text: s("orphan") });
    assert_eq!(comments.list_for(12345), vec![c]);
}

#[test]
fn serialised_inserts_give_distinct_ids_without_gaps() {
    let store = std::sync::Mutex::new(PostStore::new());
    let mut ids: Vec<u32> = Vec::new();
    for i in 0..50u32 {
        let mut guard = store.lock().unwrap();
        assert!(guard.has_room());
        ids.push(guard.insert(format!("p{}", i), s("")).id);
    }
    ids.sort();
    assert_eq!(ids, (1..=50).collect::<Vec<u32>>());
}

#[test]
fn room_checks_on_small_stores() {
    let mut posts = PostStore::new();
    assert!(posts.has_room());
    posts.insert(s("a"), s("b"));
    assert!(posts.has_room());
    let comments = CommentStore::new();
    assert!(comments.has_room_for(0));
}

#[test]
fn duplicates_copy_every_field() {
    let p = Post { id: 4, title: s("t"), body: s("b") };
    assert_eq!(p.duplicate(), p);
    let c = Comment { id: 2, post_id: 4, text: s("x") };
    assert_eq!(c.duplicate(), c);
}
