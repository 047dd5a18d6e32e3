use reading_catalog::covers::{
    extract_google_thumbnail, get_cover_url, image_probe_is_real, isbn_lookup_key,
    isbn_lookup_url, needs_cover_repair, openlibrary_cover_url, primary_id_url,
    primary_query_url, repair_after_probe, repair_first_action, CoverAction, CoverQuery,
    CoverResolver, GoogleBooksImageLinks, GoogleBooksItem, GoogleBooksResponse,
    GoogleBooksVolumeInfo, RepairAction, RepairFollowUp, ResolveEvent,
};
use reading_catalog::model::{chrono_today, today_label};
use reading_catalog::store::select_columns;

fn response_with(thumbnail: Option<&str>) -> GoogleBooksResponse {
    GoogleBooksResponse {
        total_items: Some(1),
        items: Some(vec![GoogleBooksItem {
            volume_info: Some(GoogleBooksVolumeInfo {
                image_links: Some(GoogleBooksImageLinks {
                    thumbnail: thumbnail.map(|t| t.to_string()),
                }),
            }),
        }]),
    }
}

#[test]
fn thumbnail_is_rewritten_to_secure_scheme_and_large_zoom() {
    let resp = response_with(Some("http://books.google.com/books/content?id=x&zoom=1"));
    assert_eq!(
        extract_google_thumbnail(&resp),
        Some("https://books.google.com/books/content?id=x&zoom=0".to_string())
    );
}

#[test]
fn thumbnail_absent_at_any_nesting_level_is_no_result() {
    assert_eq!(
        extract_google_thumbnail(&GoogleBooksResponse { total_items: None, items: None }),
        None
    );
    assert_eq!(
        extract_google_thumbnail(&GoogleBooksResponse {
            total_items: Some(0),
            items: Some(vec![]),
        }),
        None
    );
    assert_eq!(extract_google_thumbnail(&response_with(None)), None);
    assert_eq!(
        extract_google_thumbnail(&GoogleBooksResponse {
            total_items: Some(1),
            items: Some(vec![GoogleBooksItem { volume_info: None }]),
        }),
        None
    );
}

#[test]
fn derived_cover_url_prefers_thirteen_digit_code() {
    assert_eq!(
        get_cover_url(&Some("0441478123".to_string()), &Some("9780441478125".to_string())),
        Some("https://covers.openlibrary.org/b/isbn/9780441478125-M.jpg".to_string())
    );
    assert_eq!(
        get_cover_url(&Some("0441478123".to_string()), &None),
        Some("https://covers.openlibrary.org/b/isbn/0441478123-M.jpg".to_string())
    );
    assert_eq!(get_cover_url(&None, &None), None);
    // An empty chosen code yields absence, without falling back.
    assert_eq!(get_cover_url(&Some("0441478123".to_string()), &Some("".to_string())), None);
}

#[test]
fn placeholder_validator_rejects_small_and_failed_probes() {
    // The fallback host's stand-in graphic reports ~43 bytes.
    assert!(!image_probe_is_real(true, Some(43)));
    assert!(!image_probe_is_real(false, Some(50000)));
    assert!(!image_probe_is_real(true, None));
    assert!(!image_probe_is_real(true, Some(1000)));
    assert!(image_probe_is_real(true, Some(1001)));
    assert!(image_probe_is_real(true, Some(250000)));
}

fn query(isbn13: Option<&str>, title: &str, author: &str) -> CoverQuery {
    CoverQuery {
        isbn: None,
        isbn13: isbn13.map(|s| s.to_string()),
        title: title.to_string(),
        author: author.to_string(),
    }
}

#[test]
fn resolver_short_circuits_on_first_success() {
    let (mut m, a) = CoverResolver::start(query(Some("9780441013593"), "Dune", "Frank Herbert"));
    match a {
        CoverAction::FetchPrimaryById(id) => assert_eq!(id, "9780441013593"),
        _ => panic!("expected the identifier lookup first"),
    }
    let a = m.step(ResolveEvent::Fetched(Some("https://img.example/a.jpg".to_string())));
    match a {
        CoverAction::Finish(Some(u)) => assert_eq!(u, "https://img.example/a.jpg"),
        _ => panic!("a successful fetch must finish the chain"),
    }
}

#[test]
fn resolver_tries_fallback_host_only_after_primary_fails() {
    // A driver that fails step one and succeeds step two never sees a
    // step-three action.
    let (mut m, a) = CoverResolver::start(query(Some("9780441013593"), "Dune", "Frank Herbert"));
    assert!(matches!(a, CoverAction::FetchPrimaryById(_)));
    let a = m.step(ResolveEvent::Fetched(None));
    match a {
        CoverAction::ProbeFallbackHost(u) => {
            assert_eq!(u, "https://covers.openlibrary.org/b/isbn/9780441013593-M.jpg")
        },
        _ => panic!("the fallback host probe must come second"),
    }
    let a = m.step(ResolveEvent::Probed(true));
    match a {
        CoverAction::Finish(Some(u)) => {
            assert_eq!(u, "https://covers.openlibrary.org/b/isbn/9780441013593-M.jpg")
        },
        _ => panic!("a valid probe must finish the chain"),
    }
}

#[test]
fn resolver_reaches_title_author_search_only_after_both_fail() {
    let (mut m, a) = CoverResolver::start(query(Some("9780441013593"), "Dune", "Frank Herbert"));
    assert!(matches!(a, CoverAction::FetchPrimaryById(_)));
    let a = m.step(ResolveEvent::Fetched(None));
    assert!(matches!(a, CoverAction::ProbeFallbackHost(_)));
    let a = m.step(ResolveEvent::Probed(false));
    match a {
        CoverAction::FetchPrimaryByQuery(t, au) => {
            assert_eq!(t, "Dune");
            assert_eq!(au, "Frank Herbert");
        },
        _ => panic!("the title-and-author search must come third"),
    }
    let a = m.step(ResolveEvent::Fetched(None));
    assert!(matches!(a, CoverAction::Finish(None)));
}

#[test]
fn resolver_without_identifier_starts_at_title_author_search() {
    let (_, a) = CoverResolver::start(query(None, "Dune", "Frank Herbert"));
    assert!(matches!(a, CoverAction::FetchPrimaryByQuery(_, _)));
}

#[test]
fn resolver_with_nothing_to_go_on_finishes_empty() {
    let (_, a) = CoverResolver::start(query(None, "", "Frank Herbert"));
    assert!(matches!(a, CoverAction::Finish(None)));
    let (_, a) = CoverResolver::start(query(Some(""), "", ""));
    assert!(matches!(a, CoverAction::Finish(None)));
}

#[test]
fn repair_selects_missing_and_fallback_host_covers() {
    assert!(needs_cover_repair(&None));
    assert!(needs_cover_repair(&Some(
        "https://covers.openlibrary.org/b/isbn/9780441013593-M.jpg".to_string()
    )));
    assert!(!needs_cover_repair(&Some("https://books.google.com/x.jpg".to_string())));
}

#[test]
fn repair_revalidates_existing_fallback_cover_first() {
    let url = "https://covers.openlibrary.org/b/isbn/9780441013593-M.jpg".to_string();
    match repair_first_action(&Some(url.clone())) {
        RepairAction::ProbeExisting(u) => assert_eq!(u, url),
        _ => panic!("an existing fallback-host cover must be re-validated first"),
    }
    assert!(matches!(repair_first_action(&None), RepairAction::RunResolver));
    assert!(matches!(
        repair_first_action(&Some("https://books.google.com/x.jpg".to_string())),
        RepairAction::RunResolver
    ));
    assert!(matches!(repair_after_probe(true), RepairFollowUp::KeepExisting));
    assert!(matches!(repair_after_probe(false), RepairFollowUp::Resolve));
}

#[test]
fn lookup_urls_are_built_from_the_fixed_templates() {
    assert_eq!(
        openlibrary_cover_url("9780441013593"),
        "https://covers.openlibrary.org/b/isbn/9780441013593-M.jpg"
    );
    assert_eq!(
        primary_id_url("9780441013593"),
        "https://www.googleapis.com/books/v1/volumes?q=isbn:9780441013593&maxResults=1"
    );
    assert_eq!(
        isbn_lookup_url("9780441013593"),
        "https://openlibrary.org/api/books?bibkeys=ISBN:9780441013593&format=json&jscmd=data"
    );
    assert_eq!(isbn_lookup_key("9780441013593"), "ISBN:9780441013593");
}

#[test]
fn search_url_percent_encodes_the_query() {
    assert_eq!(
        primary_query_url("Dune Messiah", "Frank Herbert"),
        "https://www.googleapis.com/books/v1/volumes?q=intitle%3ADune%20Messiah%2Binauthor%3AFrank%20Herbert&maxResults=1"
    );
}

#[test]
fn addition_date_label_is_year_slash_first_of_january() {
    assert_eq!(today_label(0), "1970/01/01");
    // 2_000_000_000 seconds is mid-2033 under the 365-day approximation.
    assert_eq!(today_label(2_000_000_000), "2033/01/01");
    let today = chrono_today();
    assert!(today.ends_with("/01/01"));
    assert!(today.len() >= "1970/01/01".len());
}

#[test]
fn select_column_list_computes_effort_on_read() {
    let cols = select_columns();
    assert!(cols.contains("AS beq"));
    assert!(cols.contains("ROUND(books.pages * 1.0 / 348, 2)"));
    assert!(cols.starts_with("books.id"));
}
