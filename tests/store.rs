use book_store::book::Book;
use book_store::store::{BookStore, StoreError};

fn book(title: &str) -> Book {
    Book::new(title.to_string(), "author".to_string(), Some("2020".to_string()), "cover".to_string())
}

#[test]
fn seeded_store_holds_the_seed_record() {
    let store = BookStore::seeded();
    let all = store.list();
    assert_eq!(all.len(), 1);
    let b = &all[0];
    assert_eq!(b.id.as_deref(), Some("1"));
    assert_eq!(b.title, "The Lord of the Rings");
    assert_eq!(b.author, "J.R.R. Tolkien");
    assert_eq!(b.published_date.as_deref(), Some("1954-07-29"));
    assert_eq!(b.cover_image_url, "https://covers.openlibrary.org/b/id/6660100-L.jpg");
}

#[test]
fn new_store_is_empty() {
    let store = BookStore::new();
    assert_eq!(store.len(), 0);
    assert!(store.list().is_empty());
    assert!(matches!(store.get(&"1".to_string()), Err(StoreError::NotFound)));
}

#[test]
fn insert_refuses_empty_and_taken_ids() {
    let mut store = BookStore::seeded();
    assert!(matches!(store.insert(book("x"), String::new()), Err(StoreError::EmptyId)));
    assert!(matches!(store.insert(book("x"), "1".to_string()), Err(StoreError::DuplicateId)));
    assert_eq!(store.len(), 1);
    let stored = store.insert(book("x"), "k".to_string()).ok().unwrap();
    assert_eq!(stored.id.as_deref(), Some("k"));
    assert_eq!(stored.published_date.as_deref(), Some("2020"));
    assert_eq!(store.position(&"k".to_string()), Some(1));
}

#[test]
fn update_and_remove_report_missing_ids() {
    let mut store = BookStore::seeded();
    assert!(matches!(store.update(&"9".to_string(), book("x")), Err(StoreError::NotFound)));
    assert!(matches!(store.remove(&"9".to_string()), Err(StoreError::NotFound)));
    assert_eq!(store.position(&"9".to_string()), None);
    assert!(store.remove(&"1".to_string()).is_ok());
    assert_eq!(store.len(), 0);
}

#[test]
fn update_keeps_position() {
    let mut store = BookStore::new();
    for k in ["a", "b", "c"] {
        assert!(store.insert(book(k), k.to_string()).is_ok());
    }
    let updated = store.update(&"b".to_string(), book("B")).ok().unwrap();
    assert_eq!(updated.id.as_deref(), Some("b"));
    assert_eq!(store.position(&"b".to_string()), Some(1));
    let titles: Vec<String> = store.list().into_iter().map(|b| b.title).collect();
    assert_eq!(titles, vec!["a", "B", "c"]);
}

#[test]
fn get_returns_a_copy() {
    let store = BookStore::seeded();
    let mut b = store.get(&"1".to_string()).ok().unwrap();
    b.title = "changed".to_string();
    let again = store.get(&"1".to_string()).ok().unwrap();
    assert_eq!(again.title, "The Lord of the Rings");
}

#[test]
fn book_clone_and_stamp() {
    let mut b = book("t");
    let c = b.clone();
    assert_eq!(c.title, "t");
    assert_eq!(c.published_date.as_deref(), Some("2020"));
    b.stamp("id-1".to_string());
    assert_eq!(b.id.as_deref(), Some("id-1"));
    assert_eq!(b.title, "t");
    assert_eq!(c.id, None);
}
