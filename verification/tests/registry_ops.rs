use std::path::PathBuf;
use zugzug::errors::ErrorKind;
use zugzug::store::{Bucket, Store, StoreData, STORE_FILE};

fn fresh() -> Store {
    Store::new(PathBuf::from("/tmp/zz-home"))
}

fn bucket(name: &str, path: &str) -> Bucket {
    Bucket { name: name.to_string(), path: path.to_string() }
}

fn names(store: &Store) -> Vec<String> {
    store.buckets().into_iter().map(|b| b.name).collect()
}

#[test]
fn new_store_is_empty() {
    let store = fresh();
    assert!(store.buckets().is_empty());
    assert!(store.default_bucket().is_none());
    assert_eq!(store.data().default_bucket, None);
    assert_eq!(store.location(), &PathBuf::from("/tmp/zz-home"));
}

#[test]
fn store_file_is_a_dot_file() {
    assert_eq!(STORE_FILE, ".zz.json");
}

#[test]
fn first_bucket_becomes_default() {
    let mut store = fresh();
    store.add_bucket("work", "/tmp/existing_dir");
    assert_eq!(store.default_bucket(), Some(&bucket("work", "/tmp/existing_dir")));
    assert_eq!(store.buckets(), vec![bucket("work", "/tmp/existing_dir")]);
}

#[test]
fn second_bucket_leaves_default() {
    let mut store = fresh();
    store.add_bucket("a", "/a");
    store.add_bucket("b", "/b");
    assert_eq!(store.default_bucket(), Some(&bucket("a", "/a")));
    assert_eq!(names(&store), vec!["a", "b"]);
}

#[test]
fn add_does_not_check_for_duplicates() {
    let mut store = fresh();
    store.add_bucket("a", "/first");
    store.add_bucket("a", "/second");
    assert_eq!(store.buckets().len(), 2);
    assert_eq!(store.find_bucket("a"), Some(&bucket("a", "/first")));
}

#[test]
fn find_gives_first_match_or_nothing() {
    let mut store = fresh();
    store.add_bucket("a", "/a");
    store.add_bucket("b", "/b1");
    store.add_bucket("b", "/b2");
    assert_eq!(store.find_bucket("b"), Some(&bucket("b", "/b1")));
    assert_eq!(store.find_bucket("c"), None);
    assert_eq!(store.find_bucket(""), None);
}

#[test]
fn forgetting_the_default_clears_it() {
    let mut store = fresh();
    store.add_bucket("a", "/a");
    store.add_bucket("b", "/b");
    assert_eq!(store.default_bucket().map(|b| b.name.as_str()), Some("a"));
    let before = store.buckets().len();
    store.forget_bucket("a");
    assert_eq!(store.buckets().len(), before - 1);
    assert_eq!(store.default_bucket(), None);
    assert_eq!(store.data().default_bucket, None);
    assert_eq!(names(&store), vec!["b"]);
}

#[test]
fn forgetting_another_bucket_keeps_the_default() {
    let mut store = fresh();
    store.add_bucket("a", "/a");
    store.add_bucket("b", "/b");
    store.add_bucket("c", "/c");
    store.forget_bucket("b");
    assert_eq!(store.default_bucket(), Some(&bucket("a", "/a")));
    assert_eq!(names(&store), vec!["a", "c"]);
}

#[test]
fn forgetting_without_default_keeps_none() {
    let mut store = fresh();
    store.add_bucket("a", "/a");
    store.add_bucket("b", "/b");
    store.unset_default_bucket();
    store.forget_bucket("b");
    assert_eq!(store.default_bucket(), None);
    assert_eq!(names(&store), vec!["a"]);
}

#[test]
fn forgetting_removes_every_duplicate() {
    let mut store = fresh();
    store.add_bucket("a", "/a1");
    store.add_bucket("b", "/b");
    store.add_bucket("a", "/a2");
    store.forget_bucket("a");
    assert_eq!(store.buckets(), vec![bucket("b", "/b")]);
    assert_eq!(store.find_bucket("a"), None);
}

#[test]
fn forgetting_an_unknown_name_changes_nothing() {
    let mut store = fresh();
    store.add_bucket("a", "/a");
    store.forget_bucket("zzz");
    assert_eq!(store.buckets(), vec![bucket("a", "/a")]);
    assert_eq!(store.default_bucket(), Some(&bucket("a", "/a")));
}

#[test]
fn forgetting_twice_is_forgetting_once() {
    let mut store = fresh();
    store.add_bucket("a", "/a");
    store.add_bucket("b", "/b");
    store.forget_bucket("a");
    let once = store.buckets();
    store.forget_bucket("a");
    assert_eq!(store.buckets(), once);
    assert_eq!(store.default_bucket(), None);
}

#[test]
fn set_default_of_unknown_bucket_fails() {
    let mut store = fresh();
    store.add_bucket("a", "/a");
    let err = store.set_default_bucket("nope").unwrap_err();
    assert_eq!(err.kind(), ErrorKind::BucketNotFound);
    assert_eq!(err.description(), "Bucket doesn't exist");
    assert_eq!(store.data().default_bucket, Some("a".to_string()));
    assert_eq!(store.buckets(), vec![bucket("a", "/a")]);
}

#[test]
fn set_default_of_unknown_bucket_keeps_no_default() {
    let mut store = fresh();
    assert!(store.set_default_bucket("x").is_err());
    assert_eq!(store.data().default_bucket, None);
}

#[test]
fn set_default_changes_the_default() {
    let mut store = fresh();
    store.add_bucket("a", "/a");
    store.add_bucket("b", "/b");
    assert!(store.set_default_bucket("b").is_ok());
    assert_eq!(store.default_bucket(), Some(&bucket("b", "/b")));
    assert!(store.is_default("b"));
    assert!(!store.is_default("a"));
}

#[test]
fn unset_default_twice() {
    let mut store = fresh();
    store.add_bucket("a", "/a");
    store.unset_default_bucket();
    assert_eq!(store.default_bucket(), None);
    let after_first = store.buckets();
    store.unset_default_bucket();
    assert_eq!(store.default_bucket(), None);
    assert_eq!(store.data().default_bucket, None);
    assert_eq!(store.buckets(), after_first);
}

#[test]
fn add_after_unset_makes_the_new_bucket_default() {
    let mut store = fresh();
    store.add_bucket("a", "/a");
    store.unset_default_bucket();
    store.add_bucket("b", "/b");
    assert_eq!(store.default_bucket(), Some(&bucket("b", "/b")));
}

#[test]
fn dangling_default_is_tolerated() {
    let mut store = fresh();
    store.restore(StoreData {
        default_bucket: Some("gone".to_string()),
        buckets: vec![bucket("a", "/a")],
    });
    assert_eq!(store.default_bucket(), None);
    assert!(!store.is_default("gone"));
    store.forget_bucket("gone");
    assert_eq!(store.data().default_bucket, Some("gone".to_string()));
    assert_eq!(store.buckets(), vec![bucket("a", "/a")]);
}

#[test]
fn add_replaces_a_dangling_default() {
    let mut store = fresh();
    store.restore(StoreData { default_bucket: Some("gone".to_string()), buckets: vec![] });
    store.add_bucket("a", "/a");
    assert_eq!(store.data().default_bucket, Some("a".to_string()));
    assert_eq!(store.default_bucket(), Some(&bucket("a", "/a")));
}

#[test]
fn add_revives_a_dangling_default_of_the_same_name() {
    let mut store = fresh();
    store.restore(StoreData { default_bucket: Some("a".to_string()), buckets: vec![] });
    store.add_bucket("a", "/a");
    assert_eq!(store.default_bucket(), Some(&bucket("a", "/a")));
}

#[test]
fn restore_takes_the_data_as_it_is() {
    let mut store = fresh();
    let data = StoreData {
        default_bucket: Some("b".to_string()),
        buckets: vec![bucket("a", "/a"), bucket("b", "/b")],
    };
    store.restore(data);
    assert_eq!(store.data().default_bucket, Some("b".to_string()));
    assert_eq!(store.data().buckets, vec![bucket("a", "/a"), bucket("b", "/b")]);
    assert_eq!(store.default_bucket(), Some(&bucket("b", "/b")));
    assert_eq!(store.location(), &PathBuf::from("/tmp/zz-home"));
}

#[test]
fn buckets_is_a_copy_in_order() {
    let mut store = fresh();
    store.add_bucket("x", "/1");
    store.add_bucket("y", "/2");
    store.add_bucket("z", "/3");
    let mut copy = store.buckets();
    copy.clear();
    assert_eq!(names(&store), vec!["x", "y", "z"]);
}

#[test]
fn bucket_for_uses_choice_or_default() {
    let mut store = fresh();
    assert_eq!(store.bucket_for(None), None);
    store.add_bucket("a", "/a");
    store.add_bucket("b", "/b");
    assert_eq!(store.bucket_for(None), Some(&bucket("a", "/a")));
    assert_eq!(store.bucket_for(Some("b")), Some(&bucket("b", "/b")));
    assert_eq!(store.bucket_for(Some("c")), None);
    store.unset_default_bucket();
    assert_eq!(store.bucket_for(None), None);
}

#[test]
fn select_buckets_all_or_by_name() {
    let mut store = fresh();
    store.add_bucket("a", "/a1");
    store.add_bucket("b", "/b");
    store.add_bucket("a", "/a2");
    assert_eq!(store.select_buckets(None), store.buckets());
    assert_eq!(store.select_buckets(Some("a")), vec![bucket("a", "/a1"), bucket("a", "/a2")]);
    assert_eq!(store.select_buckets(Some("b")), vec![bucket("b", "/b")]);
    assert!(store.select_buckets(Some("c")).is_empty());
}

#[test]
fn in_home_without_a_home_fails() {
    let err = Store::in_home(None).err().unwrap();
    assert_eq!(err.kind(), ErrorKind::StoreUnavailable);
    assert_eq!(err.description(), "Could not get home directory");
}

#[test]
fn in_home_with_a_home_is_empty() {
    let store = Store::in_home(Some(PathBuf::from("/home/alice"))).ok().unwrap();
    assert_eq!(store.location(), &PathBuf::from("/home/alice"));
    assert!(store.buckets().is_empty());
    assert_eq!(store.data().default_bucket, None);
}

#[test]
fn from_home_agrees_with_the_system() {
    match (Store::from_home(), dirs::home_dir()) {
        (Ok(store), Some(home)) => {
            assert_eq!(store.location(), &home);
            assert!(store.buckets().is_empty());
        }
        (Err(err), None) => assert_eq!(err.kind(), ErrorKind::StoreUnavailable),
        (Ok(_), None) => panic!("a store without a home directory"),
        (Err(_), Some(_)) => panic!("no store although there is a home directory"),
    }
}

#[test]
fn bucket_clone_keeps_both_fields() {
    let first = bucket("a", "/some/where");
    let copy = first.clone();
    assert_eq!(copy, first);
    assert_eq!(copy.name, "a");
    assert_eq!(copy.path, "/some/where");
}
