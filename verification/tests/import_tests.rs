use reading_catalog::alias::{assoc_get, auto_detect_columns, default_aliases};
use reading_catalog::import::{clean_isbn, extract_year, import_csv, preview_csv_headers};
use reading_catalog::model::reading_effort_centi;
use reading_catalog::store::CatalogStore;

fn headers_of(hs: &[&str]) -> Vec<String> {
    hs.iter().map(|h| h.to_string()).collect()
}

fn mapped(pairs: &Vec<(String, String)>, key: &str) -> Option<String> {
    assoc_get(pairs, &key.to_string())
}

#[test]
fn alias_table_covers_the_three_schemas() {
    let aliases = default_aliases();
    assert_eq!(mapped(&aliases, "Title"), Some("title".to_string()));
    assert_eq!(mapped(&aliases, "Primary Author"), Some("author".to_string()));
    assert_eq!(mapped(&aliases, "Star Rating"), Some("my_rating".to_string()));
    assert_eq!(mapped(&aliases, "Collections"), Some("bookshelves".to_string()));
    assert_eq!(mapped(&aliases, "No Such Header"), None);
}

#[test]
fn auto_detect_maps_first_match_and_ignores_later_ones() {
    let headers = headers_of(&["Title", "Number of Pages", "Pages", "Unknown"]);
    let m = auto_detect_columns(&headers);
    assert_eq!(mapped(&m, "title"), Some("Title".to_string()));
    // "Number of Pages" wins; the later "Pages" header is ignored.
    assert_eq!(mapped(&m, "pages"), Some("Number of Pages".to_string()));
    assert_eq!(m.len(), 2);
}

#[test]
fn auto_detect_is_deterministic_across_repeated_calls() {
    let headers = headers_of(&["ISBN13", "Author", "Title", "Bookshelves"]);
    let first = auto_detect_columns(&headers);
    let second = auto_detect_columns(&headers);
    assert_eq!(first, second);
}

#[test]
fn auto_detect_trims_headers() {
    let headers = headers_of(&["  Title  ", " Author"]);
    let m = auto_detect_columns(&headers);
    assert_eq!(mapped(&m, "title"), Some("Title".to_string()));
    assert_eq!(mapped(&m, "author"), Some("Author".to_string()));
}

#[test]
fn preview_returns_trimmed_headers() {
    let r = preview_csv_headers("  Title ,Author,ISBN13\nx,y,z\n".to_string()).unwrap();
    assert_eq!(r, vec!["Title".to_string(), "Author".to_string(), "ISBN13".to_string()]);
}

#[test]
fn clean_isbn_strips_export_artifacts() {
    assert_eq!(clean_isbn(&"=\"9780441013593\"".to_string()), Some("9780441013593".to_string()));
    assert_eq!(clean_isbn(&" 0441013597 ".to_string()), Some("0441013597".to_string()));
    assert_eq!(clean_isbn(&"=\"\"".to_string()), None);
    assert_eq!(clean_isbn(&"".to_string()), None);
}

#[test]
fn extract_year_finds_first_qualifying_run() {
    assert_eq!(extract_year("2024/05/15"), Some(2024));
    assert_eq!(extract_year("May 15, 2024"), Some(2024));
    assert_eq!(extract_year("15-05-1999"), Some(1999));
    // The first four-digit window out of range is passed over.
    assert_eq!(extract_year("25111985"), Some(1985));
    assert_eq!(extract_year("1899"), None);
    assert_eq!(extract_year("no year"), None);
    assert_eq!(extract_year(""), None);
}

#[test]
fn effort_score_under_fixed_reference_policy() {
    // A book of exactly the reference length scores 1.00.
    assert_eq!(reading_effort_centi(Some(348)), Some(100));
    assert_eq!(reading_effort_centi(Some(174)), Some(50));
    assert_eq!(reading_effort_centi(Some(696)), Some(200));
    assert_eq!(reading_effort_centi(Some(0)), None);
    assert_eq!(reading_effort_centi(Some(-10)), None);
    assert_eq!(reading_effort_centi(None), None);
}

#[test]
fn three_field_row_imports_with_derived_cover() {
    let mut store = CatalogStore::new();
    let text = "Title,Author,ISBN13\n\"Dune\",\"Frank Herbert\",\"9780441013593\"\n".to_string();
    let res = import_csv(&mut store, &text, None).unwrap();
    assert_eq!(res.total, 1);
    assert_eq!(res.imported, 1);
    assert_eq!(res.skipped.len(), 0);
    assert_eq!(store.books.len(), 1);
    let b = &store.books[0];
    assert_eq!(b.title, "Dune");
    assert_eq!(b.author, "Frank Herbert");
    assert_eq!(b.isbn13, Some("9780441013593".to_string()));
    assert_eq!(
        b.cover_url,
        Some("https://covers.openlibrary.org/b/isbn/9780441013593-M.jpg".to_string())
    );
    // Defaults for fields the source did not supply.
    assert_eq!(b.exclusive_shelf, "to-read");
    assert_eq!(b.book_type, "traditional");
    assert_eq!(b.date_added, "2025/01/01");
    assert_eq!(b.my_rating, 0);
}

#[test]
fn duplicate_isbn13_skips_second_row_with_label() {
    let mut store = CatalogStore::new();
    let text = "Title,Author,ISBN13\nDune,Frank Herbert,9780441013593\nOther Name,Someone Else,9780441013593\n"
        .to_string();
    let res = import_csv(&mut store, &text, None).unwrap();
    assert_eq!(res.total, 2);
    assert_eq!(res.imported, 1);
    assert_eq!(res.skipped, vec!["Other Name by Someone Else".to_string()]);
    assert_eq!(store.books.len(), 1);
    assert_eq!(store.books[0].title, "Dune");
}

#[test]
fn importing_the_same_dataset_twice_imports_nothing_new() {
    let mut store = CatalogStore::new();
    let text = "Title,Author,ISBN13\nDune,Frank Herbert,9780441013593\nHyperion,Dan Simmons,9780553283686\n"
        .to_string();
    let first = import_csv(&mut store, &text, None).unwrap();
    assert_eq!(first.imported, 2);
    let second = import_csv(&mut store, &text, None).unwrap();
    assert_eq!(second.total, 2);
    assert_eq!(second.imported, 0);
    assert_eq!(second.skipped.len(), 2);
    assert_eq!(store.books.len(), 2);
}

#[test]
fn dedup_falls_back_through_the_signal_chain() {
    let mut store = CatalogStore::new();
    // Same title and author pair, compared case-insensitively, with no codes.
    let text = "Title,Author\nThe Hobbit,J. R. R. Tolkien\nTHE HOBBIT,j. r. r. tolkien\n".to_string();
    let res = import_csv(&mut store, &text, None).unwrap();
    assert_eq!(res.imported, 1);
    assert_eq!(res.skipped, vec!["THE HOBBIT by j. r. r. tolkien".to_string()]);
}

#[test]
fn dedup_on_external_identifier() {
    let mut store = CatalogStore::new();
    let text = "Book Id,Title,Author\n77203,First,Alpha\n77203,Second,Beta\n".to_string();
    let res = import_csv(&mut store, &text, None).unwrap();
    assert_eq!(res.imported, 1);
    assert_eq!(res.skipped, vec!["Second by Beta".to_string()]);
}

#[test]
fn rows_without_title_and_author_are_counted_but_not_imported() {
    let mut store = CatalogStore::new();
    let text = "Title,Author,ISBN13\n,,9780000000001\nReal Book,Real Author,9780000000002\n".to_string();
    let res = import_csv(&mut store, &text, None).unwrap();
    assert_eq!(res.total, 2);
    assert_eq!(res.imported, 1);
    assert_eq!(res.skipped.len(), 0);
    // imported + duplicates + invalid accounts for every parsed row.
    assert!(res.imported + (res.skipped.len() as i64) <= res.total);
}

#[test]
fn title_only_row_is_imported_and_labelled_without_author() {
    let mut store = CatalogStore::new();
    let text = "Title,Author,ISBN13\nNameless,,9780000000003\nNameless,,9780000000003\n".to_string();
    let res = import_csv(&mut store, &text, None).unwrap();
    assert_eq!(res.imported, 1);
    assert_eq!(res.skipped, vec!["Nameless".to_string()]);
}

#[test]
fn explicit_column_mapping_overrides_auto_detection() {
    let mut store = CatalogStore::new();
    let text = "Weird Name Col,Weird Author Col\nSolaris,Stanislaw Lem\n".to_string();
    let mapping = vec![
        ("title".to_string(), "Weird Name Col".to_string()),
        ("author".to_string(), "Weird Author Col".to_string()),
    ];
    let res = import_csv(&mut store, &text, Some(mapping)).unwrap();
    assert_eq!(res.imported, 1);
    assert_eq!(store.books[0].title, "Solaris");
    assert_eq!(store.books[0].author, "Stanislaw Lem");
}

#[test]
fn short_rows_resolve_missing_cells_as_empty() {
    let mut store = CatalogStore::new();
    // The data row has fewer columns than the header row; flexible
    // parsing keeps it and the missing author resolves to empty text.
    let text = "Title,Author\nLone Title\n".to_string();
    let res = import_csv(&mut store, &text, None).unwrap();
    assert_eq!(res.imported, 1);
    assert_eq!(store.books[0].title, "Lone Title");
    assert_eq!(store.books[0].author, "");
}

#[test]
fn shelves_are_created_once_and_linked_idempotently() {
    let mut store = CatalogStore::new();
    let text = "Title,Author,Bookshelves\nA,X,\"fantasy, classics\"\nB,Y,\"fantasy, , sci-fi\"\n"
        .to_string();
    let res = import_csv(&mut store, &text, None).unwrap();
    assert_eq!(res.imported, 2);
    let names: Vec<&str> = store.shelves.iter().map(|s| s.name.as_str()).collect();
    assert_eq!(names, vec!["fantasy", "classics", "sci-fi"]);
    assert_eq!(store.links.len(), 4);
}

#[test]
fn year_read_derived_from_date_read_when_absent() {
    let mut store = CatalogStore::new();
    let text = "Title,Author,Date Read,Number of Pages\nA,X,2023/07/01,348\n".to_string();
    let res = import_csv(&mut store, &text, None).unwrap();
    assert_eq!(res.imported, 1);
    let b = &store.books[0];
    assert_eq!(b.date_read, Some("2023/07/01".to_string()));
    assert_eq!(b.year_read, Some(2023));
    assert_eq!(b.pages, Some(348));
    assert_eq!(reading_effort_centi(b.pages), Some(100));
}

#[test]
fn explicit_year_read_wins_over_date_scan() {
    let mut store = CatalogStore::new();
    let text = "Title,Author,Year Read,Date Read\nA,X,2020,2023/07/01\n".to_string();
    import_csv(&mut store, &text, None).unwrap();
    assert_eq!(store.books[0].year_read, Some(2020));
}

#[test]
fn goodreads_style_export_round_trip() {
    let mut store = CatalogStore::new();
    let mut text = String::from(
        "Book Id,Title,Author,Author l-f,ISBN,ISBN13,My Rating,Average Rating,Publisher,Number of Pages,Year Published,Date Read,Date Added,Exclusive Shelf,My Review,Read Count,Owned Copies,Bookshelves\n",
    );
    text.push_str(
        "77203,The Left Hand of Darkness,Ursula K. Le Guin,\"Le Guin, Ursula K.\",=\"0441478123\",=\"9780441478125\",5,4.09,Ace,304,1969,2021/03/14,2021/01/02,read,Loved it,2,1,\"sci-fi, favorites\"\n",
    );
    let res = import_csv(&mut store, &text, None).unwrap();
    assert_eq!(res.imported, 1);
    let b = &store.books[0];
    assert_eq!(b.goodreads_id, Some(77203));
    assert_eq!(b.isbn, Some("0441478123".to_string()));
    assert_eq!(b.isbn13, Some("9780441478125".to_string()));
    assert_eq!(b.my_rating, 5);
    assert_eq!(b.average_rating_text, Some("4.09".to_string()));
    assert_eq!(b.pages, Some(304));
    assert_eq!(b.year_published, Some(1969));
    assert_eq!(b.year_read, Some(2021));
    assert_eq!(b.date_added, "2021/01/02");
    assert_eq!(b.exclusive_shelf, "read");
    assert_eq!(b.read_count, 2);
    assert_eq!(b.owned_copies, 1);
    assert_eq!(store.shelves.len(), 2);
}

#[test]
fn alternate_schema_headers_resolve_through_aliases() {
    let mut store = CatalogStore::new();
    // StoryGraph-style rating column and LibraryThing-style author
    // and page columns resolve to the same canonical fields.
    let text = "Title,Primary Author,Star Rating,Page Count,Collections\nRoadside Picnic,Arkady Strugatsky,4,209,sci-fi\n"
        .to_string();
    let res = import_csv(&mut store, &text, None).unwrap();
    assert_eq!(res.imported, 1);
    let b = &store.books[0];
    assert_eq!(b.author, "Arkady Strugatsky");
    assert_eq!(b.my_rating, 4);
    assert_eq!(b.pages, Some(209));
    assert_eq!(store.shelves.len(), 1);
    assert_eq!(store.shelves[0].name, "sci-fi");
}

#[test]
fn import_fails_when_record_identifiers_would_run_out() {
    let mut store = CatalogStore::new();
    store.next_book_id = i64::MAX;
    let text = "Title,Author\nA,X\n".to_string();
    let err = import_csv(&mut store, &text, None).unwrap_err();
    assert!(err.contains("record identifiers"));
    assert_eq!(store.books.len(), 0);
}

#[test]
fn import_fails_when_shelf_identifiers_would_run_out() {
    let mut store = CatalogStore::new();
    store.next_shelf_id = i64::MAX;
    let text = "Title,Author,Bookshelves\nA,X,fantasy\n".to_string();
    let err = import_csv(&mut store, &text, None).unwrap_err();
    assert!(err.contains("shelf identifiers"));
    assert_eq!(store.books.len(), 0);
    assert_eq!(store.shelves.len(), 0);
}

#[test]
fn empty_input_has_no_rows() {
    let mut store = CatalogStore::new();
    let res = import_csv(&mut store, &"Title,Author\n".to_string(), None).unwrap();
    assert_eq!(res.total, 0);
    assert_eq!(res.imported, 0);
}
