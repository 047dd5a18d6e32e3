use reading_catalog::model::CatalogRecord;
use reading_catalog::store::CatalogStore;

fn record(title: &str, author: &str, isbn: Option<&str>, isbn13: Option<&str>, goodreads_id: Option<i64>) -> CatalogRecord {
    CatalogRecord {
        id: 0,
        goodreads_id,
        title: title.to_string(),
        author: author.to_string(),
        author_sort: None,
        additional_authors: None,
        isbn: isbn.map(|s| s.to_string()),
        isbn13: isbn13.map(|s| s.to_string()),
        my_rating: 0,
        average_rating_text: None,
        publisher: None,
        binding: None,
        pages: None,
        edition_published: None,
        year_published: None,
        date_read: None,
        year_read: None,
        date_added: "2025/01/01".to_string(),
        exclusive_shelf: "to-read".to_string(),
        my_review: None,
        read_count: 0,
        owned_copies: 0,
        cover_url: None,
        book_type: "traditional".to_string(),
    }
}

#[test]
fn records_get_sequential_identifiers() {
    let mut store = CatalogStore::new();
    let a = store.add_record(record("A", "X", None, None, None));
    let b = store.add_record(record("B", "Y", None, None, None));
    assert_eq!(a, 1);
    assert_eq!(b, 2);
    assert_eq!(store.books[0].id, 1);
    assert_eq!(store.books[1].id, 2);
}

#[test]
fn dedup_chain_matches_each_signal() {
    let mut store = CatalogStore::new();
    store.add_record(record("Dune", "Frank Herbert", Some("0441013597"), Some("9780441013593"), Some(77)));

    // 13-digit code.
    assert!(store.is_duplicate(&None, &Some("9780441013593".to_string()), None, &"Other".to_string(), &"Other".to_string()));
    // 10-digit code.
    assert!(store.is_duplicate(&Some("0441013597".to_string()), &None, None, &"Other".to_string(), &"Other".to_string()));
    // External identifier.
    assert!(store.is_duplicate(&None, &None, Some(77), &"Other".to_string(), &"Other".to_string()));
    // Case-insensitive title and author.
    assert!(store.is_duplicate(&None, &None, None, &"DUNE".to_string(), &"frank herbert".to_string()));
    // No signal matches.
    assert!(!store.is_duplicate(&None, &Some("9999999999999".to_string()), Some(78), &"Else".to_string(), &"Else".to_string()));
    // A lone title never matches: the pair check needs both parts.
    assert!(!store.is_duplicate(&None, &None, None, &"Dune".to_string(), &"".to_string()));
}

#[test]
fn ensure_shelf_reuses_existing_names_case_sensitively() {
    let mut store = CatalogStore::new();
    let a = store.ensure_shelf(&"fantasy".to_string());
    let b = store.ensure_shelf(&"fantasy".to_string());
    let c = store.ensure_shelf(&"Fantasy".to_string());
    assert_eq!(a, b);
    assert_ne!(a, c);
    assert_eq!(store.shelves.len(), 2);
}

#[test]
fn linking_is_idempotent() {
    let mut store = CatalogStore::new();
    let book = store.add_record(record("A", "X", None, None, None));
    let shelf = store.ensure_shelf(&"fantasy".to_string());
    store.link(book, shelf);
    store.link(book, shelf);
    assert_eq!(store.links.len(), 1);
    assert_eq!(store.links[0], (book, shelf));
}
