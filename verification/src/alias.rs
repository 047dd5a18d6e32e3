//! The alias resolver: a fixed table mapping recognized source-file
//! header strings to canonical field names, and auto-detection of a
//! canonical-field-to-header mapping from a header row.
//!
//! Mappings are association lists of `(key, value)` pairs resolved by
//! first match, which keeps resolution deterministic and independent
//! of any hash iteration order.

use vstd::prelude::*;

use crate::text::{strings_view, trim_str, trimmed};

verus! {

/// The views of a sequence of string pairs.
pub open spec fn pairs_view(ps: Seq<(String, String)>) -> Seq<(Seq<char>, Seq<char>)> {
    ps.map_values(|p: (String, String)| (p.0@, p.1@))
}

/// First-match lookup in an association list.
pub open spec fn assoc_lookup(ps: Seq<(Seq<char>, Seq<char>)>, k: Seq<char>) -> Option<Seq<char>>
    decreases ps.len(),
{
    if ps.len() == 0 {
        None
    } else if ps[0].0 == k {
        Some(ps[0].1)
    } else {
        assoc_lookup(ps.skip(1), k)
    }
}

/// Look a key up in an association list, first match wins.
pub fn assoc_get(ps: &Vec<(String, String)>, k: &String) -> (r: Option<String>)
    ensures
        crate::model::opt_text_view(r) == assoc_lookup(pairs_view(ps@), k@),
{
    let mut i: usize = 0;
    proof {
        assert(pairs_view(ps@).skip(0) =~= pairs_view(ps@));
    }
    while i < ps.len()
        invariant
            i <= ps@.len(),
            assoc_lookup(pairs_view(ps@), k@) == assoc_lookup(
                pairs_view(ps@).skip(i as int),
                k@,
            ),
        decreases ps@.len() - i,
    {
        let ghost rest = pairs_view(ps@).skip(i as int);
        proof {
            assert(rest[0] == pairs_view(ps@)[i as int]);
            assert(rest.skip(1) =~= pairs_view(ps@).skip(i as int + 1));
        }
        if ps[i].0 == *k {
            return Some(ps[i].1.clone());
        }
        i = i + 1;
    }
    None
}

/// The alias table: recognized header strings of the three supported
/// source schemas, each mapped to the canonical field it names.
pub open spec fn default_alias_spec() -> Seq<(Seq<char>, Seq<char>)> {
    seq![
        ("Book Id"@, "goodreads_id"@),
        ("Title"@, "title"@),
        ("Author"@, "author"@),
        ("Author l-f"@, "author_sort"@),
        ("Author (By Last Name)"@, "author_sort"@),
        ("Additional Authors"@, "additional_authors"@),
        ("ISBN"@, "isbn"@),
        ("ISBN13"@, "isbn13"@),
        ("My Rating"@, "my_rating"@),
        ("Rating"@, "my_rating"@),
        ("Average Rating"@, "average_rating"@),
        ("Publisher"@, "publisher"@),
        ("Binding"@, "binding"@),
        ("Number of Pages"@, "pages"@),
        ("Pages"@, "pages"@),
        ("Year Published"@, "year_published"@),
        ("Original Publication Year"@, "year_published"@),
        ("Published"@, "year_published"@),
        ("Edition Published"@, "edition_published"@),
        ("Date Read"@, "date_read"@),
        ("Year Read"@, "year_read"@),
        ("Date Added"@, "date_added"@),
        ("Exclusive Shelf"@, "exclusive_shelf"@),
        ("My Review"@, "my_review"@),
        ("Review"@, "my_review"@),
        ("Read Count"@, "read_count"@),
        ("Owned Copies"@, "owned_copies"@),
        ("Bookshelves"@, "bookshelves"@),
        ("Shelves"@, "bookshelves"@),
        ("Tags"@, "bookshelves"@),
        ("Star Rating"@, "my_rating"@),
        ("Date Read "@, "date_read"@),
        ("Primary Author"@, "author"@),
        ("Secondary Author"@, "additional_authors"@),
        ("Publication"@, "publisher"@),
        ("Date"@, "year_published"@),
        ("Page Count"@, "pages"@),
        ("Collections"@, "bookshelves"@),
        ("Book Type"@, "book_type"@),
        ("Type"@, "book_type"@),
        ("Format"@, "book_type"@),
    ]
}

fn alias_pair(k: &str, v: &str) -> (r: (String, String))
    ensures
        r.0@ == k@,
        r.1@ == v@,
{
    (String::from_str(k), String::from_str(v))
}

/// Build the alias table.
#[verifier::rlimit(50)]
pub fn default_aliases() -> (r: Vec<(String, String)>)
    ensures
        pairs_view(r@) == default_alias_spec(),
{
    let mut v: Vec<(String, String)> = Vec::new();
    v.push(alias_pair("Book Id", "goodreads_id"));
    v.push(alias_pair("Title", "title"));
    v.push(alias_pair("Author", "author"));
    v.push(alias_pair("Author l-f", "author_sort"));
    v.push(alias_pair("Author (By Last Name)", "author_sort"));
    v.push(alias_pair("Additional Authors", "additional_authors"));
    v.push(alias_pair("ISBN", "isbn"));
    v.push(alias_pair("ISBN13", "isbn13"));
    v.push(alias_pair("My Rating", "my_rating"));
    v.push(alias_pair("Rating", "my_rating"));
    v.push(alias_pair("Average Rating", "average_rating"));
    v.push(alias_pair("Publisher", "publisher"));
    v.push(alias_pair("Binding", "binding"));
    v.push(alias_pair("Number of Pages", "pages"));
    v.push(alias_pair("Pages", "pages"));
    v.push(alias_pair("Year Published", "year_published"));
    v.push(alias_pair("Original Publication Year", "year_published"));
    v.push(alias_pair("Published", "year_published"));
    v.push(alias_pair("Edition Published", "edition_published"));
    v.push(alias_pair("Date Read", "date_read"));
    v.push(alias_pair("Year Read", "year_read"));
    v.push(alias_pair("Date Added", "date_added"));
    v.push(alias_pair("Exclusive Shelf", "exclusive_shelf"));
    v.push(alias_pair("My Review", "my_review"));
    v.push(alias_pair("Review", "my_review"));
    v.push(alias_pair("Read Count", "read_count"));
    v.push(alias_pair("Owned Copies", "owned_copies"));
    v.push(alias_pair("Bookshelves", "bookshelves"));
    v.push(alias_pair("Shelves", "bookshelves"));
    v.push(alias_pair("Tags", "bookshelves"));
    v.push(alias_pair("Star Rating", "my_rating"));
    v.push(alias_pair("Date Read ", "date_read"));
    v.push(alias_pair("Primary Author", "author"));
    v.push(alias_pair("Secondary Author", "additional_authors"));
    v.push(alias_pair("Publication", "publisher"));
    v.push(alias_pair("Date", "year_published"));
    v.push(alias_pair("Page Count", "pages"));
    v.push(alias_pair("Collections", "bookshelves"));
    v.push(alias_pair("Book Type", "book_type"));
    v.push(alias_pair("Type", "book_type"));
    v.push(alias_pair("Format", "book_type"));
    proof {
        assert(pairs_view(v@) =~= default_alias_spec());
    }
    v
}

/// Auto-detection of the canonical-field-to-header mapping over the
/// first `n` headers: each trimmed header that the alias table
/// recognizes is assigned to its canonical field unless that field
/// already has an assignment (first match wins, in header order).
pub open spec fn detect_fold(headers: Seq<Seq<char>>, n: int) -> Seq<(Seq<char>, Seq<char>)>
    decreases n,
{
    if n <= 0 {
        Seq::empty()
    } else {
        let prev = detect_fold(headers, n - 1);
        let t = trimmed(headers[n - 1]);
        match assoc_lookup(default_alias_spec(), t) {
            Some(field) => match assoc_lookup(prev, field) {
                Some(_) => prev,
                None => prev.push((field, t)),
            },
            None => prev,
        }
    }
}

/// The mapping that auto-detection produces for a header row.
pub open spec fn auto_detect_spec(headers: Seq<Seq<char>>) -> Seq<(Seq<char>, Seq<char>)> {
    detect_fold(headers, headers.len() as int)
}

/// Detect which headers map to canonical fields using the alias
/// table.  Returns (canonical field, trimmed header) pairs.
pub fn auto_detect_columns(csv_headers: &Vec<String>) -> (r: Vec<(String, String)>)
    ensures
        pairs_view(r@) == auto_detect_spec(strings_view(csv_headers@)),
{
    let aliases = default_aliases();
    let mut result: Vec<(String, String)> = Vec::new();
    let mut i: usize = 0;
    while i < csv_headers.len()
        invariant
            i <= csv_headers@.len(),
            pairs_view(aliases@) == default_alias_spec(),
            pairs_view(result@) == detect_fold(strings_view(csv_headers@), i as int),
        decreases csv_headers@.len() - i,
    {
        let t = trim_str(csv_headers[i].as_str());
        proof {
            assert(strings_view(csv_headers@)[i as int] == csv_headers@[i as int]@);
        }
        match assoc_get(&aliases, &t) {
            Some(field) => {
                let have = assoc_get(&result, &field);
                match have {
                    Some(_) => {},
                    None => {
                        result.push((field, t));
                        proof {
                            assert(pairs_view(result@) =~= detect_fold(
                                strings_view(csv_headers@),
                                i as int + 1,
                            ));
                        }
                    },
                }
            },
            None => {},
        }
        i = i + 1;
    }
    result
}

/// Alias resolution is deterministic and order-independent across
/// repeated calls: for one fixed header list, every run of
/// auto-detection yields the same mapping, because the result is a
/// pure function of the header sequence alone.
pub proof fn lemma_auto_detect_deterministic(h1: Seq<Seq<char>>, h2: Seq<Seq<char>>)
    requires
        h1 == h2,
    ensures
        auto_detect_spec(h1) == auto_detect_spec(h2),
{
}

} // verus!
