use link_store::database::{
    add_link, clear_all_links, delete_some_links, get_all_links, get_all_links_from_user,
    is_link_exists, LinkStore,
};
use link_store::record::Links;

fn row(user_id: u64, link: &str) -> Links {
    Links { user_id, link: link.to_string() }
}

#[test]
fn memory_end_to_end() {
    let mut store = LinkStore::new_in_memory();
    assert_eq!(add_link(&mut store, 42, "http://x.com"), Ok(()));
    assert_eq!(add_link(&mut store, 42, "http://y.com"), Ok(()));
    assert_eq!(add_link(&mut store, 7, "http://x.com"), Ok(()));

    assert_eq!(
        get_all_links_from_user(&store, 42, None),
        Ok(vec![row(42, "http://x.com"), row(42, "http://y.com")])
    );
    assert_eq!(is_link_exists(&store, 42, "http://y.com"), Ok(true));
    assert_eq!(is_link_exists(&store, 7, "http://y.com"), Ok(false));

    assert_eq!(clear_all_links(&mut store, 42), Ok(()));
    assert_eq!(get_all_links_from_user(&store, 42, None), Ok(vec![]));
    assert_eq!(get_all_links_from_user(&store, 7, None), Ok(vec![row(7, "http://x.com")]));
}

#[test]
fn memory_starts_empty() {
    let store = LinkStore::new_in_memory();
    assert_eq!(get_all_links(&store), Ok(vec![]));
    assert_eq!(is_link_exists(&store, 0, ""), Ok(false));
}

#[test]
fn memory_insert_then_exists() {
    let mut store = LinkStore::new_in_memory();
    add_link(&mut store, u64::MAX, "a").unwrap();
    assert_eq!(is_link_exists(&store, u64::MAX, "a"), Ok(true));
    assert_eq!(is_link_exists(&store, u64::MAX - 1, "a"), Ok(false));
}

#[test]
fn memory_duplicates_are_kept() {
    let mut store = LinkStore::new_in_memory();
    add_link(&mut store, 5, "same").unwrap();
    add_link(&mut store, 5, "same").unwrap();
    assert_eq!(
        get_all_links_from_user(&store, 5, Some("same")),
        Ok(vec![row(5, "same"), row(5, "same")])
    );
}

#[test]
fn memory_query_is_scoped_and_exact() {
    let mut store = LinkStore::new_in_memory();
    add_link(&mut store, 1, "a").unwrap();
    add_link(&mut store, 2, "a").unwrap();
    add_link(&mut store, 1, "A").unwrap();
    add_link(&mut store, 1, "ab").unwrap();
    assert_eq!(
        get_all_links_from_user(&store, 1, None),
        Ok(vec![row(1, "a"), row(1, "A"), row(1, "ab")])
    );
    assert_eq!(get_all_links_from_user(&store, 1, Some("a")), Ok(vec![row(1, "a")]));
    assert_eq!(get_all_links_from_user(&store, 3, None), Ok(vec![]));
}

#[test]
fn memory_get_all_links_keeps_insertion_order() {
    let mut store = LinkStore::new_in_memory();
    add_link(&mut store, 2, "b").unwrap();
    add_link(&mut store, 1, "a").unwrap();
    add_link(&mut store, 2, "").unwrap();
    assert_eq!(get_all_links(&store), Ok(vec![row(2, "b"), row(1, "a"), row(2, "")]));
}

#[test]
fn memory_clear_is_idempotent() {
    let mut store = LinkStore::new_in_memory();
    add_link(&mut store, 2, "kept").unwrap();
    assert_eq!(clear_all_links(&mut store, 1), Ok(()));
    assert_eq!(get_all_links(&store), Ok(vec![row(2, "kept")]));
    add_link(&mut store, 1, "a").unwrap();
    add_link(&mut store, 1, "b").unwrap();
    assert_eq!(clear_all_links(&mut store, 1), Ok(()));
    let once = get_all_links(&store);
    assert_eq!(clear_all_links(&mut store, 1), Ok(()));
    assert_eq!(get_all_links(&store), once);
    assert_eq!(once, Ok(vec![row(2, "kept")]));
}

#[test]
fn memory_delete_some_links_is_precise() {
    let mut store = LinkStore::new_in_memory();
    add_link(&mut store, 1, "a").unwrap();
    add_link(&mut store, 2, "a").unwrap();
    add_link(&mut store, 1, "b").unwrap();
    add_link(&mut store, 1, "c").unwrap();
    add_link(&mut store, 2, "c").unwrap();
    assert_eq!(delete_some_links(&mut store, 1, vec!["a", "c"]), Ok(()));
    assert_eq!(get_all_links_from_user(&store, 1, None), Ok(vec![row(1, "b")]));
    assert_eq!(get_all_links_from_user(&store, 2, None), Ok(vec![row(2, "a"), row(2, "c")]));
}

#[test]
fn memory_delete_removes_every_copy_and_tolerates_strangers() {
    let mut store = LinkStore::new_in_memory();
    add_link(&mut store, 1, "a").unwrap();
    add_link(&mut store, 1, "a").unwrap();
    add_link(&mut store, 1, "b").unwrap();
    assert_eq!(delete_some_links(&mut store, 1, vec!["zzz", "a", "a"]), Ok(()));
    assert_eq!(get_all_links(&store), Ok(vec![row(1, "b")]));
}

#[test]
fn memory_delete_nothing_changes_nothing() {
    let mut store = LinkStore::new_in_memory();
    add_link(&mut store, 1, "a").unwrap();
    assert_eq!(delete_some_links(&mut store, 1, vec![]), Ok(()));
    assert_eq!(get_all_links(&store), Ok(vec![row(1, "a")]));
}

#[test]
fn memory_exists_false_on_absence() {
    let mut store = LinkStore::new_in_memory();
    assert_eq!(is_link_exists(&store, 1, "a"), Ok(false));
    add_link(&mut store, 1, "b").unwrap();
    add_link(&mut store, 2, "a").unwrap();
    assert_eq!(is_link_exists(&store, 1, "a"), Ok(false));
}

#[test]
fn memory_keeps_a_link_with_a_nul() {
    let mut store = LinkStore::new_in_memory();
    assert_eq!(add_link(&mut store, 1, "a\0b"), Ok(()));
    assert_eq!(is_link_exists(&store, 1, "a\0b"), Ok(true));
    assert_eq!(is_link_exists(&store, 1, "a"), Ok(false));
    assert_eq!(get_all_links_from_user(&store, 1, Some("a\0b")), Ok(vec![row(1, "a\0b")]));
    assert_eq!(delete_some_links(&mut store, 1, vec!["a\0b"]), Ok(()));
    assert_eq!(get_all_links(&store), Ok(vec![]));
}
