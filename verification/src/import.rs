//! The import engine: header resolution, row-by-row field coercion,
//! deduplication, record construction, and shelf linkage, producing a
//! run summary.

use vstd::prelude::*;

use crate::alias::{assoc_get, assoc_lookup, auto_detect_columns, auto_detect_spec, pairs_view};
use crate::covers::cover_url_spec;
use crate::model::{opt_int_view, opt_text_view, CatalogRecord, ImportResult, RecordView};
use crate::store::{
    add_record_spec, ensure_shelf_spec, is_dup_spec, link_spec, CatalogStore, StoreView,
};
use crate::text::{
    all_digits, digits_val, parse_i64, parse_i64_spec, split_commas, split_commas_spec,
    strings_view, trim_str, trimmed,
};

verus! {

/// The position of the first header whose trimmed text equals `h`.
pub open spec fn header_index_spec(headers: Seq<Seq<char>>, h: Seq<char>) -> Option<int>
    decreases headers.len(),
{
    if headers.len() == 0 {
        None
    } else if trimmed(headers[0]) == h {
        Some(0int)
    } else {
        match header_index_spec(headers.skip(1), h) {
            Some(i) => Some(i + 1),
            None => None,
        }
    }
}

/// The raw text a canonical field resolves to in one row: the cell in
/// the column of the field's mapped header, trimmed; empty when the
/// field has no mapped header, the header is not in the header row,
/// or the row is too short.
pub open spec fn mapped_field_text(
    headers: Seq<Seq<char>>,
    m: Seq<(Seq<char>, Seq<char>)>,
    row: Seq<Seq<char>>,
    field: Seq<char>,
) -> Seq<char> {
    match assoc_lookup(m, field) {
        Some(h) => match header_index_spec(headers, h) {
            Some(ix) => if ix < row.len() {
                trimmed(row[ix])
            } else {
                Seq::empty()
            },
            None => Seq::empty(),
        },
        None => Seq::empty(),
    }
}

fn header_index(headers: &Vec<String>, h: &String) -> (r: Option<usize>)
    ensures
        match r {
            Some(ix) => header_index_spec(strings_view(headers@), h@) == Some(ix as int) && ix
                < headers@.len(),
            None => header_index_spec(strings_view(headers@), h@) is None,
        },
{
    let ghost hv = strings_view(headers@);
    let mut i: usize = 0;
    proof {
        assert(hv.skip(0) =~= hv);
    }
    while i < headers.len()
        invariant
            i <= headers@.len(),
            hv == strings_view(headers@),
            match header_index_spec(hv.skip(i as int), h@) {
                Some(j) => header_index_spec(hv, h@) == Some(j + i),
                None => header_index_spec(hv, h@) is None,
            },
        decreases headers@.len() - i,
    {
        let ghost rest = hv.skip(i as int);
        proof {
            assert(rest[0] == hv[i as int]);
            assert(rest.skip(1) =~= hv.skip(i as int + 1));
        }
        let t = trim_str(headers[i].as_str());
        if t == *h {
            proof {
                assert(header_index_spec(rest, h@) == Some(0int));
            }
            return Some(i);
        }
        i = i + 1;
    }
    proof {
        assert(hv.skip(i as int) =~= Seq::<Seq<char>>::empty());
    }
    None
}

/// Resolve a canonical field's raw text in one row.
pub fn get_field(
    headers: &Vec<String>,
    mapping: &Vec<(String, String)>,
    row: &Vec<String>,
    field: &str,
) -> (r: String)
    ensures
        r@ == mapped_field_text(
            strings_view(headers@),
            pairs_view(mapping@),
            strings_view(row@),
            field@,
        ),
{
    let key = String::from_str(field);
    match assoc_get(mapping, &key) {
        Some(h) => {
            match header_index(headers, &h) {
                Some(ix) => {
                    if ix < row.len() {
                        proof {
                            assert(strings_view(row@)[ix as int] == row@[ix as int]@);
                        }
                        trim_str(row[ix].as_str())
                    } else {
                        String::new()
                    }
                },
                None => String::new(),
            }
        },
        None => String::new(),
    }
}

/// Identifier-code characters kept after cleaning: everything but the
/// spreadsheet-export artifacts `=` and `"`.
pub open spec fn keeps_isbn_char(c: char) -> bool {
    c != '=' && c != '"'
}

/// The identifier code with artifact characters removed.
pub open spec fn strip_isbn_chars(s: Seq<char>) -> Seq<char>
    decreases s.len(),
{
    if s.len() == 0 {
        Seq::empty()
    } else if keeps_isbn_char(s.last()) {
        strip_isbn_chars(s.drop_last()).push(s.last())
    } else {
        strip_isbn_chars(s.drop_last())
    }
}

/// A cleaned identifier code: artifacts stripped, whitespace trimmed,
/// an empty result meaning absent.
pub open spec fn clean_isbn_spec(s: Seq<char>) -> Option<Seq<char>> {
    let t = trimmed(strip_isbn_chars(s));
    if t.len() == 0 {
        None
    } else {
        Some(t)
    }
}

/// Clean an identifier code.
pub fn clean_isbn(raw: &String) -> (r: Option<String>)
    ensures
        opt_text_view(r) == clean_isbn_spec(raw@),
{
    let s = raw.as_str();
    let len: usize = s.unicode_len();
    let mut kept: String = String::new();
    let mut i: usize = 0;
    proof {
        assert(s@.take(0) =~= Seq::<char>::empty());
    }
    while i < len
        invariant
            len == s@.len(),
            i <= len,
            kept@ == strip_isbn_chars(s@.take(i as int)),
        decreases len - i,
    {
        let c = s.get_char(i);
        proof {
            assert(s@.take(i as int + 1).drop_last() =~= s@.take(i as int));
            assert(s@.take(i as int + 1).last() == s@[i as int]);
        }
        if c != '=' && c != '"' {
            let one = s.substring_char(i, i + 1);
            proof {
                assert(one@ =~= seq![s@[i as int]]);
            }
            kept.append(one);
            proof {
                assert(kept@ =~= strip_isbn_chars(s@.take(i as int + 1)));
            }
        }
        i = i + 1;
    }
    proof {
        assert(s@.take(len as int) =~= s@);
    }
    let t = trim_str(kept.as_str());
    if t.as_str().unicode_len() == 0 {
        None
    } else {
        Some(t)
    }
}

/// The first window of four consecutive digits, at or after position
/// `i`, whose value reads as a year between 1900 and 2099.
pub open spec fn extract_year_from(s: Seq<char>, i: int) -> Option<int>
    decreases s.len() - i,
{
    if i < 0 || i + 4 > s.len() {
        None
    } else if all_digits(s.subrange(i, i + 4)) && 1900 <= digits_val(s.subrange(i, i + 4))
        <= 2099 {
        Some(digits_val(s.subrange(i, i + 4)))
    } else {
        extract_year_from(s, i + 1)
    }
}

/// The year read out of a free-text date, if any.
pub open spec fn extract_year_spec(s: Seq<char>) -> Option<int> {
    extract_year_from(s, 0)
}

proof fn lemma_digits_val4(t: Seq<char>)
    requires
        t.len() == 4,
    ensures
        digits_val(t) == 1000 * (t[0] as u32 - 48) + 100 * (t[1] as u32 - 48) + 10 * (
        t[2] as u32 - 48) + (t[3] as u32 - 48),
{
    let t3 = t.drop_last();
    let t2 = t3.drop_last();
    let t1 = t2.drop_last();
    let t0 = t1.drop_last();
    assert(t0.len() == 0);
    assert(digits_val(t0) == 0);
    assert(digits_val(t1) == 10 * digits_val(t0) + (t1.last() as u32 - 48));
    assert(digits_val(t2) == 10 * digits_val(t1) + (t2.last() as u32 - 48));
    assert(digits_val(t3) == 10 * digits_val(t2) + (t3.last() as u32 - 48));
    assert(digits_val(t) == 10 * digits_val(t3) + (t.last() as u32 - 48));
    assert(t1.last() == t[0]);
    assert(t2.last() == t[1]);
    assert(t3.last() == t[2]);
    assert(t.last() == t[3]);
}

/// Scan a date string for the first four-digit run that reads as a
/// year between 1900 and 2099.
pub fn extract_year(date_str: &str) -> (r: Option<i64>)
    ensures
        opt_int_view(r) == extract_year_spec(date_str@),
{
    let len: usize = date_str.unicode_len();
    let mut i: usize = 0;
    while 4 <= len - i && i < len
        invariant
            len == date_str@.len(),
            i <= len,
            extract_year_spec(date_str@) == extract_year_from(date_str@, i as int),
        decreases len - i,
    {
        let ghost win = date_str@.subrange(i as int, i as int + 4);
        let c0 = date_str.get_char(i) as u32;
        let c1 = date_str.get_char(i + 1) as u32;
        let c2 = date_str.get_char(i + 2) as u32;
        let c3 = date_str.get_char(i + 3) as u32;
        let d0 = 48 <= c0 && c0 <= 57;
        let d1 = 48 <= c1 && c1 <= 57;
        let d2 = 48 <= c2 && c2 <= 57;
        let d3 = 48 <= c3 && c3 <= 57;
        proof {
            assert(win[0] == date_str@[i as int]);
            assert(win[1] == date_str@[i as int + 1]);
            assert(win[2] == date_str@[i as int + 2]);
            assert(win[3] == date_str@[i as int + 3]);
            lemma_digits_val4(win);
        }
        if d0 && d1 && d2 && d3 {
            let v: u32 = 1000 * (c0 - 48) + 100 * (c1 - 48) + 10 * (c2 - 48) + (c3 - 48);
            proof {
                assert(all_digits(win));
                assert(digits_val(win) == v);
            }
            if 1900 <= v && v <= 2099 {
                return Some(v as i64);
            }
        }
        proof {
            assert(extract_year_from(date_str@, i as int) == extract_year_from(
                date_str@,
                i as int + 1,
            ));
        }
        i = i + 1;
    }
    proof {
        assert(extract_year_from(date_str@, i as int) is None);
    }
    None
}

/// A non-empty text, or absent.
pub open spec fn opt_nonempty_spec(s: Seq<char>) -> Option<Seq<char>> {
    if s.len() == 0 {
        None
    } else {
        Some(s)
    }
}

/// A non-empty text, or a default.
pub open spec fn text_or_spec(s: Seq<char>, dflt: Seq<char>) -> Seq<char> {
    if s.len() == 0 {
        dflt
    } else {
        s
    }
}

/// The parsed integer, or absent.
pub open spec fn parse_opt_int(s: Seq<char>) -> Option<int> {
    match parse_i64_spec(s) {
        Some(v) => Some(v as int),
        None => None,
    }
}

/// The parsed integer, or zero.
pub open spec fn parse_or_zero(s: Seq<char>) -> int {
    match parse_i64_spec(s) {
        Some(v) => v as int,
        None => 0,
    }
}

fn opt_nonempty(s: String) -> (r: Option<String>)
    ensures
        opt_text_view(r) == opt_nonempty_spec(s@),
{
    if s.as_str().unicode_len() == 0 {
        None
    } else {
        Some(s)
    }
}

fn text_or(s: String, dflt: &str) -> (r: String)
    ensures
        r@ == text_or_spec(s@, dflt@),
{
    if s.as_str().unicode_len() == 0 {
        String::from_str(dflt)
    } else {
        s
    }
}

fn parse_i64_or_zero(s: &String) -> (r: i64)
    ensures
        r as int == parse_or_zero(s@),
{
    match parse_i64(s.as_str()) {
        Some(v) => v,
        None => 0,
    }
}

/// The record one data row normalizes to, before the store assigns
/// its identifier.
pub open spec fn record_of_row(
    h: Seq<Seq<char>>,
    m: Seq<(Seq<char>, Seq<char>)>,
    row: Seq<Seq<char>>,
) -> RecordView {
    RecordView {
        id: 0,
        goodreads_id: parse_opt_int(mapped_field_text(h, m, row, "goodreads_id"@)),
        title: mapped_field_text(h, m, row, "title"@),
        author: mapped_field_text(h, m, row, "author"@),
        author_sort: Some(mapped_field_text(h, m, row, "author_sort"@)),
        additional_authors: Some(mapped_field_text(h, m, row, "additional_authors"@)),
        isbn: clean_isbn_spec(mapped_field_text(h, m, row, "isbn"@)),
        isbn13: clean_isbn_spec(mapped_field_text(h, m, row, "isbn13"@)),
        my_rating: parse_or_zero(mapped_field_text(h, m, row, "my_rating"@)),
        average_rating_text: opt_nonempty_spec(mapped_field_text(h, m, row, "average_rating"@)),
        publisher: Some(mapped_field_text(h, m, row, "publisher"@)),
        binding: Some(mapped_field_text(h, m, row, "binding"@)),
        pages: parse_opt_int(mapped_field_text(h, m, row, "pages"@)),
        edition_published: parse_opt_int(mapped_field_text(h, m, row, "edition_published"@)),
        year_published: parse_opt_int(mapped_field_text(h, m, row, "year_published"@)),
        date_read: opt_nonempty_spec(mapped_field_text(h, m, row, "date_read"@)),
        year_read: match parse_i64_spec(mapped_field_text(h, m, row, "year_read"@)) {
            Some(y) => Some(y as int),
            None => extract_year_spec(mapped_field_text(h, m, row, "date_read"@)),
        },
        date_added: text_or_spec(mapped_field_text(h, m, row, "date_added"@), "2025/01/01"@),
        exclusive_shelf: text_or_spec(mapped_field_text(h, m, row, "exclusive_shelf"@), "to-read"@),
        my_review: opt_nonempty_spec(mapped_field_text(h, m, row, "my_review"@)),
        read_count: parse_or_zero(mapped_field_text(h, m, row, "read_count"@)),
        owned_copies: parse_or_zero(mapped_field_text(h, m, row, "owned_copies"@)),
        cover_url: crate::covers::get_cover_url_spec(
            clean_isbn_spec(mapped_field_text(h, m, row, "isbn"@)),
            clean_isbn_spec(mapped_field_text(h, m, row, "isbn13"@)),
        ),
        book_type: text_or_spec(mapped_field_text(h, m, row, "book_type"@), "traditional"@),
    }
}

/// Normalize one data row into a record.
pub fn build_record(
    headers: &Vec<String>,
    mapping: &Vec<(String, String)>,
    row: &Vec<String>,
) -> (rec: CatalogRecord)
    ensures
        rec@ == record_of_row(strings_view(headers@), pairs_view(mapping@), strings_view(row@)),
{
    let isbn = clean_isbn(&get_field(headers, mapping, row, "isbn"));
    let isbn13 = clean_isbn(&get_field(headers, mapping, row, "isbn13"));
    let cover_url = crate::covers::get_cover_url(&isbn, &isbn13);
    let year_read: Option<i64> = match parse_i64(
        get_field(headers, mapping, row, "year_read").as_str(),
    ) {
        Some(y) => Some(y),
        None => extract_year(get_field(headers, mapping, row, "date_read").as_str()),
    };
    CatalogRecord {
        id: 0,
        goodreads_id: parse_i64(get_field(headers, mapping, row, "goodreads_id").as_str()),
        title: get_field(headers, mapping, row, "title"),
        author: get_field(headers, mapping, row, "author"),
        author_sort: Some(get_field(headers, mapping, row, "author_sort")),
        additional_authors: Some(get_field(headers, mapping, row, "additional_authors")),
        isbn,
        isbn13,
        my_rating: parse_i64_or_zero(&get_field(headers, mapping, row, "my_rating")),
        average_rating_text: opt_nonempty(get_field(headers, mapping, row, "average_rating")),
        publisher: Some(get_field(headers, mapping, row, "publisher")),
        binding: Some(get_field(headers, mapping, row, "binding")),
        pages: parse_i64(get_field(headers, mapping, row, "pages").as_str()),
        edition_published: parse_i64(
            get_field(headers, mapping, row, "edition_published").as_str(),
        ),
        year_published: parse_i64(get_field(headers, mapping, row, "year_published").as_str()),
        date_read: opt_nonempty(get_field(headers, mapping, row, "date_read")),
        year_read,
        date_added: text_or(get_field(headers, mapping, row, "date_added"), "2025/01/01"),
        exclusive_shelf: text_or(get_field(headers, mapping, row, "exclusive_shelf"), "to-read"),
        my_review: opt_nonempty(get_field(headers, mapping, row, "my_review")),
        read_count: parse_i64_or_zero(&get_field(headers, mapping, row, "read_count")),
        owned_copies: parse_i64_or_zero(&get_field(headers, mapping, row, "owned_copies")),
        cover_url,
        book_type: text_or(get_field(headers, mapping, row, "book_type"), "traditional"),
    }
}

/// The shelf names of one row's "bookshelves" cell, in order: split
/// on commas, trimmed, empties discarded.
pub open spec fn filter_shelf_tokens(toks: Seq<Seq<char>>, n: int) -> Seq<Seq<char>>
    decreases n,
{
    if n <= 0 {
        Seq::empty()
    } else {
        let prev = filter_shelf_tokens(toks, n - 1);
        let t = trimmed(toks[n - 1]);
        if t.len() > 0 {
            prev.push(t)
        } else {
            prev
        }
    }
}

/// The shelf names named by a "bookshelves" cell.
pub open spec fn shelf_tokens_spec(cell: Seq<char>) -> Seq<Seq<char>> {
    filter_shelf_tokens(split_commas_spec(cell), split_commas_spec(cell).len() as int)
}

/// Collect the shelf names of a "bookshelves" cell.
pub fn collect_shelf_tokens(cell: &String) -> (r: Vec<String>)
    ensures
        strings_view(r@) == shelf_tokens_spec(cell@),
{
    let raw = split_commas(cell.as_str());
    let mut out: Vec<String> = Vec::new();
    let mut i: usize = 0;
    proof {
        assert(strings_view(out@) =~= filter_shelf_tokens(strings_view(raw@), 0));
    }
    while i < raw.len()
        invariant
            strings_view(raw@) == split_commas_spec(cell@),
            i <= raw@.len(),
            strings_view(out@) == filter_shelf_tokens(strings_view(raw@), i as int),
        decreases raw@.len() - i,
    {
        proof {
            assert(strings_view(raw@)[i as int] == raw@[i as int]@);
        }
        let t = trim_str(raw[i].as_str());
        if t.as_str().unicode_len() > 0 {
            out.push(t);
            proof {
                assert(strings_view(out@) =~= filter_shelf_tokens(
                    strings_view(raw@),
                    i as int + 1,
                ));
            }
        }
        i = i + 1;
    }
    out
}

/// How one row fared during a run.
pub enum RowVerdict {
    /// The row did not parse as tabular data.
    Malformed,
    /// Title and author both resolved to empty text.
    Invalid,
    /// A deduplication signal matched an existing record.
    Duplicate,
    /// A record was created.
    Imported,
}

/// A row is rejected when both title and author resolve to empty
/// text.
pub open spec fn row_invalid_spec(
    h: Seq<Seq<char>>,
    m: Seq<(Seq<char>, Seq<char>)>,
    row: Seq<Seq<char>>,
) -> bool {
    mapped_field_text(h, m, row, "title"@).len() == 0 && mapped_field_text(
        h,
        m,
        row,
        "author"@,
    ).len() == 0
}

/// Whether a row collides with a record already in the store.
pub open spec fn row_dup_spec(
    s: StoreView,
    h: Seq<Seq<char>>,
    m: Seq<(Seq<char>, Seq<char>)>,
    row: Seq<Seq<char>>,
) -> bool {
    is_dup_spec(
        s.books,
        clean_isbn_spec(mapped_field_text(h, m, row, "isbn"@)),
        clean_isbn_spec(mapped_field_text(h, m, row, "isbn13"@)),
        parse_opt_int(mapped_field_text(h, m, row, "goodreads_id"@)),
        mapped_field_text(h, m, row, "title"@),
        mapped_field_text(h, m, row, "author"@),
    )
}

/// The human-readable label recorded for a skipped duplicate.
pub open spec fn row_label_spec(
    h: Seq<Seq<char>>,
    m: Seq<(Seq<char>, Seq<char>)>,
    row: Seq<Seq<char>>,
) -> Seq<char> {
    if mapped_field_text(h, m, row, "author"@).len() == 0 {
        mapped_field_text(h, m, row, "title"@)
    } else {
        mapped_field_text(h, m, row, "title"@) + " by "@ + mapped_field_text(h, m, row, "author"@)
    }
}

/// Ensure-and-link every shelf token to a record, left to right.
pub open spec fn link_shelves_fold(
    s: StoreView,
    book_id: int,
    toks: Seq<Seq<char>>,
    n: int,
) -> StoreView
    decreases n,
{
    if n <= 0 {
        s
    } else {
        let prev = link_shelves_fold(s, book_id, toks, n - 1);
        let es = ensure_shelf_spec(prev, toks[n - 1]);
        link_spec(es.0, book_id, es.1)
    }
}

/// One row's effect on the store, and its verdict.
pub open spec fn import_row_spec(
    s: StoreView,
    h: Seq<Seq<char>>,
    m: Seq<(Seq<char>, Seq<char>)>,
    row: Option<Seq<Seq<char>>>,
) -> (StoreView, RowVerdict) {
    match row {
        None => (s, RowVerdict::Malformed),
        Some(r) => if row_invalid_spec(h, m, r) {
            (s, RowVerdict::Invalid)
        } else if row_dup_spec(s, h, m, r) {
            (s, RowVerdict::Duplicate)
        } else {
            let book_id = s.next_book_id;
            let s2 = add_record_spec(s, record_of_row(h, m, r));
            let toks = shelf_tokens_spec(mapped_field_text(h, m, r, "bookshelves"@));
            (link_shelves_fold(s2, book_id, toks, toks.len() as int), RowVerdict::Imported)
        },
    }
}

/// A whole run over the first `n` rows: the final store, the verdict
/// of each row, and the labels of the rows skipped as duplicates.
pub open spec fn import_fold(
    s: StoreView,
    h: Seq<Seq<char>>,
    m: Seq<(Seq<char>, Seq<char>)>,
    rows: Seq<Option<Seq<Seq<char>>>>,
    n: int,
) -> (StoreView, Seq<RowVerdict>, Seq<Seq<char>>)
    decreases n,
{
    if n <= 0 {
        (s, Seq::empty(), Seq::empty())
    } else {
        let prev = import_fold(s, h, m, rows, n - 1);
        let step = import_row_spec(prev.0, h, m, rows[n - 1]);
        let labels = if step.1 is Duplicate {
            prev.2.push(row_label_spec(h, m, rows[n - 1].unwrap()))
        } else {
            prev.2
        };
        (step.0, prev.1.push(step.1), labels)
    }
}

/// How many verdicts equal `v`.
pub open spec fn count_verdict(vs: Seq<RowVerdict>, v: RowVerdict) -> int
    decreases vs.len(),
{
    if vs.len() == 0 {
        0
    } else {
        count_verdict(vs.drop_last(), v) + if vs.last() == v {
            1int
        } else {
            0int
        }
    }
}

pub proof fn lemma_count_verdict_push(vs: Seq<RowVerdict>, v: RowVerdict, w: RowVerdict)
    ensures
        count_verdict(vs.push(v), w) == count_verdict(vs, w) + if v == w {
            1int
        } else {
            0int
        },
{
    assert(vs.push(v).drop_last() =~= vs);
    assert(vs.push(v).last() == v);
}

pub proof fn lemma_count_verdict_bounds(vs: Seq<RowVerdict>, v: RowVerdict)
    ensures
        0 <= count_verdict(vs, v) <= vs.len(),
    decreases vs.len(),
{
    if vs.len() > 0 {
        lemma_count_verdict_bounds(vs.drop_last(), v);
    }
}

/// The combined length of the first `n` cells of a row.
pub open spec fn cells_len_sum(r: Seq<Seq<char>>, n: int) -> int
    decreases n,
{
    if n <= 0 {
        0
    } else {
        cells_len_sum(r, n - 1) + r[n - 1].len()
    }
}

/// An upper bound on the shelves one row can create: its combined
/// cell text plus one.
pub open spec fn row_cells_budget(row: Option<Seq<Seq<char>>>) -> int {
    match row {
        None => 0,
        Some(r) => cells_len_sum(r, r.len() as int) + 1,
    }
}

/// An upper bound on the shelves a run can create.
pub open spec fn rows_budget(rows: Seq<Option<Seq<Seq<char>>>>, n: int) -> int
    decreases n,
{
    if n <= 0 {
        0
    } else {
        rows_budget(rows, n - 1) + row_cells_budget(rows[n - 1])
    }
}

proof fn lemma_cells_sum_nonneg(r: Seq<Seq<char>>, n: int)
    ensures
        0 <= cells_len_sum(r, n),
    decreases n,
{
    if n > 0 {
        lemma_cells_sum_nonneg(r, n - 1);
    }
}

proof fn lemma_cell_le_sum(r: Seq<Seq<char>>, ix: int, n: int)
    requires
        0 <= ix < n,
    ensures
        r[ix].len() <= cells_len_sum(r, n),
    decreases n,
{
    if ix == n - 1 {
        lemma_cells_sum_nonneg(r, n - 1);
    } else {
        lemma_cell_le_sum(r, ix, n - 1);
    }
}

proof fn lemma_filter_tokens_len(toks: Seq<Seq<char>>, n: int)
    requires
        0 <= n,
    ensures
        filter_shelf_tokens(toks, n).len() <= n,
    decreases n,
{
    if n > 0 {
        lemma_filter_tokens_len(toks, n - 1);
    }
}

proof fn lemma_header_index_bounds(h: Seq<Seq<char>>, hn: Seq<char>)
    ensures
        header_index_spec(h, hn) matches Some(i) ==> 0 <= i < h.len(),
    decreases h.len(),
{
    if h.len() > 0 && trimmed(h[0]) != hn {
        lemma_header_index_bounds(h.skip(1), hn);
    }
}

proof fn lemma_tokens_le_budget(
    h: Seq<Seq<char>>,
    m: Seq<(Seq<char>, Seq<char>)>,
    row: Seq<Seq<char>>,
)
    ensures
        shelf_tokens_spec(mapped_field_text(h, m, row, "bookshelves"@)).len() <= row_cells_budget(
            Some(row),
        ),
{
    let cell = mapped_field_text(h, m, row, "bookshelves"@);
    crate::text::lemma_split_commas_count(cell);
    lemma_filter_tokens_len(split_commas_spec(cell), split_commas_spec(cell).len() as int);
    lemma_cells_sum_nonneg(row, row.len() as int);
    match assoc_lookup(m, "bookshelves"@) {
        Some(hn) => match header_index_spec(h, hn) {
            Some(ix) => {
                lemma_header_index_bounds(h, hn);
                if ix < row.len() {
                    crate::text::lemma_trimmed_len(row[ix]);
                    lemma_cell_le_sum(row, ix, row.len() as int);
                } else {
                }
            },
            None => {},
        },
        None => {},
    }
}

proof fn lemma_rows_budget_mono(rows: Seq<Option<Seq<Seq<char>>>>, a: int, b: int)
    requires
        0 <= a <= b,
    ensures
        rows_budget(rows, a) <= rows_budget(rows, b),
    decreases b,
{
    if a < b {
        lemma_rows_budget_mono(rows, a, b - 1);
        match rows[b - 1] {
            None => {},
            Some(r) => {
                lemma_cells_sum_nonneg(r, r.len() as int);
            },
        }
    }
}

/// Linking shelves never touches the records and allocates at most
/// one shelf per token.
pub proof fn lemma_link_fold_growth(s: StoreView, book_id: int, toks: Seq<Seq<char>>, n: int)
    requires
        0 <= n,
    ensures
        link_shelves_fold(s, book_id, toks, n).books == s.books,
        link_shelves_fold(s, book_id, toks, n).next_book_id == s.next_book_id,
        s.next_shelf_id <= link_shelves_fold(s, book_id, toks, n).next_shelf_id <= s.next_shelf_id
            + n,
    decreases n,
{
    if n > 0 {
        lemma_link_fold_growth(s, book_id, toks, n - 1);
    }
}

/// A run's verdict list has one verdict per row, record identifiers
/// only move forward, and shelf allocation stays within the budget.
pub proof fn lemma_import_fold_growth(
    s: StoreView,
    h: Seq<Seq<char>>,
    m: Seq<(Seq<char>, Seq<char>)>,
    rows: Seq<Option<Seq<Seq<char>>>>,
    n: int,
)
    requires
        0 <= n,
    ensures
        import_fold(s, h, m, rows, n).1.len() == n,
        s.next_book_id <= import_fold(s, h, m, rows, n).0.next_book_id <= s.next_book_id + n,
        s.next_shelf_id <= import_fold(s, h, m, rows, n).0.next_shelf_id <= s.next_shelf_id
            + rows_budget(rows, n),
    decreases n,
{
    if n > 0 {
        lemma_import_fold_growth(s, h, m, rows, n - 1);
        let prev = import_fold(s, h, m, rows, n - 1);
        match rows[n - 1] {
            None => {},
            Some(r) => {
                lemma_cells_sum_nonneg(r, r.len() as int);
                if !row_invalid_spec(h, m, r) && !row_dup_spec(prev.0, h, m, r) {
                    let s2 = add_record_spec(prev.0, record_of_row(h, m, r));
                    let toks = shelf_tokens_spec(mapped_field_text(h, m, r, "bookshelves"@));
                    lemma_tokens_le_budget(h, m, r);
                    lemma_link_fold_growth(s2, prev.0.next_book_id, toks, toks.len() as int);
                }
            },
        }
    }
}

/// The views of a sequence of parsed rows.
pub open spec fn rows_view(rs: Seq<Option<Vec<String>>>) -> Seq<Option<Seq<Seq<char>>>> {
    rs.map_values(
        |o: Option<Vec<String>>|
            match o {
                Some(v) => Some(strings_view(v@)),
                None => None,
            },
    )
}

/// Run the import over parsed rows: resolve each recognized field,
/// reject rows with neither title nor author, skip duplicates with a
/// recorded label, create records and link their shelves, and return
/// the run summary.
#[verifier::loop_isolation(false)]
#[verifier::rlimit(100)]
pub fn import_rows(
    store: &mut CatalogStore,
    headers: &Vec<String>,
    mapping: &Vec<(String, String)>,
    rows: &Vec<Option<Vec<String>>>,
) -> (r: ImportResult)
    requires
        old(store)@.wf(),
        old(store)@.next_book_id + rows@.len() <= i64::MAX,
        old(store)@.next_shelf_id + rows_budget(rows_view(rows@), rows@.len() as int) <= i64::MAX,
    ensures
        final(store)@ == import_fold(
            old(store)@,
            strings_view(headers@),
            pairs_view(mapping@),
            rows_view(rows@),
            rows@.len() as int,
        ).0,
        final(store)@.wf(),
        r.total == rows@.len(),
        r.imported == count_verdict(
            import_fold(
                old(store)@,
                strings_view(headers@),
                pairs_view(mapping@),
                rows_view(rows@),
                rows@.len() as int,
            ).1,
            RowVerdict::Imported,
        ),
        strings_view(r.skipped@) == import_fold(
            old(store)@,
            strings_view(headers@),
            pairs_view(mapping@),
            rows_view(rows@),
            rows@.len() as int,
        ).2,
{
    let ghost hv = strings_view(headers@);
    let ghost mv = pairs_view(mapping@);
    let ghost rv = rows_view(rows@);
    let mut imported: i64 = 0;
    let mut total: i64 = 0;
    let mut skipped: Vec<String> = Vec::new();
    let mut i: usize = 0;
    while i < rows.len()
        invariant
            i <= rows@.len(),
            store@ == import_fold(old(store)@, hv, mv, rv, i as int).0,
            store@.wf(),
            total as int == i as int,
            imported as int == count_verdict(
                import_fold(old(store)@, hv, mv, rv, i as int).1,
                RowVerdict::Imported,
            ),
            strings_view(skipped@) == import_fold(old(store)@, hv, mv, rv, i as int).2,
        decreases rows@.len() - i,
    {
        let ghost prev = import_fold(old(store)@, hv, mv, rv, i as int);
        let ghost stepres = import_row_spec(prev.0, hv, mv, rv[i as int]);
        proof {
            lemma_import_fold_growth(old(store)@, hv, mv, rv, i as int);
            lemma_count_verdict_bounds(prev.1, RowVerdict::Imported);
        }
        total = total + 1;
        match &rows[i] {
            None => {
                proof {
                    assert(rv[i as int] is None);
                    lemma_count_verdict_push(prev.1, RowVerdict::Malformed, RowVerdict::Imported);
                }
            },
            Some(row) => {
                proof {
                    assert(rv[i as int] == Some(strings_view(row@)));
                }
                let title = get_field(headers, mapping, row, "title");
                let author = get_field(headers, mapping, row, "author");
                if title.as_str().unicode_len() == 0 && author.as_str().unicode_len() == 0 {
                    proof {
                        lemma_count_verdict_push(prev.1, RowVerdict::Invalid, RowVerdict::Imported);
                    }
                } else {
                    let isbn = clean_isbn(&get_field(headers, mapping, row, "isbn"));
                    let isbn13 = clean_isbn(&get_field(headers, mapping, row, "isbn13"));
                    let goodreads_id = parse_i64(
                        get_field(headers, mapping, row, "goodreads_id").as_str(),
                    );
                    let dup = store.is_duplicate(&isbn, &isbn13, goodreads_id, &title, &author);
                    if dup {
                        let label = if author.as_str().unicode_len() == 0 {
                            title
                        } else {
                            let mut l = title;
                            l.append(" by ");
                            l.append(author.as_str());
                            l
                        };
                        proof {
                            assert(label@ == row_label_spec(hv, mv, strings_view(row@)));
                            lemma_count_verdict_push(
                                prev.1,
                                RowVerdict::Duplicate,
                                RowVerdict::Imported,
                            );
                        }
                        skipped.push(label);
                        proof {
                            assert(strings_view(skipped@) =~= prev.2.push(
                                row_label_spec(hv, mv, strings_view(row@)),
                            ));
                        }
                    } else {
                        let rec = build_record(headers, mapping, row);
                        let book_id = store.add_record(rec);
                        let ghost s2 = add_record_spec(prev.0, rec@);
                        let cell = get_field(headers, mapping, row, "bookshelves");
                        let toks = collect_shelf_tokens(&cell);
                        let ghost toksv = shelf_tokens_spec(cell@);
                        proof {
                            lemma_tokens_le_budget(hv, mv, strings_view(row@));
                            lemma_rows_budget_mono(rv, i as int + 1, rv.len() as int);
                        }
                        let mut j: usize = 0;
                        while j < toks.len()
                            invariant
                                j <= toks@.len(),
                                store@ == link_shelves_fold(s2, book_id as int, toksv, j as int),
                                store@.wf(),
                            decreases toks@.len() - j,
                        {
                            proof {
                                lemma_link_fold_growth(s2, book_id as int, toksv, j as int);
                                assert(strings_view(toks@)[j as int] == toks@[j as int]@);
                            }
                            let sid = store.ensure_shelf(&toks[j]);
                            store.link(book_id, sid);
                            j = j + 1;
                        }
                        imported = imported + 1;
                        proof {
                            lemma_count_verdict_push(
                                prev.1,
                                RowVerdict::Imported,
                                RowVerdict::Imported,
                            );
                        }
                    }
                }
            },
        }
        i = i + 1;
    }
    ImportResult { imported, total, skipped }
}

/// Every row is classified exactly once: imported rows, duplicates,
/// invalid rows and malformed rows together account for all rows
/// seen.  In particular `imported + duplicates + invalid` never
/// exceeds the total, and equals it when every row parsed; the
/// recorded skip labels are exactly one per duplicate.
pub proof fn lemma_import_accounting(
    s: StoreView,
    h: Seq<Seq<char>>,
    m: Seq<(Seq<char>, Seq<char>)>,
    rows: Seq<Option<Seq<Seq<char>>>>,
    n: int,
)
    requires
        0 <= n,
    ensures
        ({
            let vs = import_fold(s, h, m, rows, n).1;
            &&& count_verdict(vs, RowVerdict::Imported) + count_verdict(vs, RowVerdict::Duplicate)
                + count_verdict(vs, RowVerdict::Invalid) + count_verdict(
                vs,
                RowVerdict::Malformed,
            ) == n
            &&& count_verdict(vs, RowVerdict::Imported) + count_verdict(vs, RowVerdict::Duplicate)
                + count_verdict(vs, RowVerdict::Invalid) <= n
            &&& (forall|k: int| 0 <= k < n ==> rows[k] is Some) ==> count_verdict(
                vs,
                RowVerdict::Malformed,
            ) == 0
            &&& import_fold(s, h, m, rows, n).2.len() == count_verdict(vs, RowVerdict::Duplicate)
        }),
    decreases n,
{
    if n > 0 {
        lemma_import_accounting(s, h, m, rows, n - 1);
        let prev = import_fold(s, h, m, rows, n - 1);
        let v = import_row_spec(prev.0, h, m, rows[n - 1]).1;
        lemma_count_verdict_push(prev.1, v, RowVerdict::Imported);
        lemma_count_verdict_push(prev.1, v, RowVerdict::Duplicate);
        lemma_count_verdict_push(prev.1, v, RowVerdict::Invalid);
        lemma_count_verdict_push(prev.1, v, RowVerdict::Malformed);
        lemma_count_verdict_bounds(prev.1, RowVerdict::Malformed);
    }
}

/// As a run proceeds, records and verdicts are only appended: what an
/// earlier point of the run established is still there later.
pub proof fn lemma_import_fold_prefix(
    s: StoreView,
    h: Seq<Seq<char>>,
    m: Seq<(Seq<char>, Seq<char>)>,
    rows: Seq<Option<Seq<Seq<char>>>>,
    a: int,
    b: int,
)
    requires
        0 <= a <= b,
    ensures
        import_fold(s, h, m, rows, a).0.books.len() <= import_fold(s, h, m, rows, b).0.books.len(),
        forall|i: int|
            0 <= i < import_fold(s, h, m, rows, a).0.books.len() ==> import_fold(
                s,
                h,
                m,
                rows,
                b,
            ).0.books[i] == import_fold(s, h, m, rows, a).0.books[i],
        forall|i: int|
            0 <= i < a ==> import_fold(s, h, m, rows, b).1[i] == import_fold(s, h, m, rows, a).1[i],
    decreases b,
{
    lemma_import_fold_growth(s, h, m, rows, a);
    lemma_import_fold_growth(s, h, m, rows, b);
    if a < b {
        lemma_import_fold_prefix(s, h, m, rows, a, b - 1);
        lemma_import_fold_growth(s, h, m, rows, b - 1);
        let prev = import_fold(s, h, m, rows, b - 1);
        match rows[b - 1] {
            None => {},
            Some(r) => {
                if !row_invalid_spec(h, m, r) && !row_dup_spec(prev.0, h, m, r) {
                    let s2 = add_record_spec(prev.0, record_of_row(h, m, r));
                    let toks = shelf_tokens_spec(mapped_field_text(h, m, r, "bookshelves"@));
                    lemma_link_fold_growth(s2, prev.0.next_book_id, toks, toks.len() as int);
                }
            },
        }
    }
}

/// Whether a row carries at least one deduplication signal: a cleaned
/// 13-digit code, a cleaned 10-digit code, a parseable external
/// identifier, or a non-empty title together with a non-empty author.
pub open spec fn row_has_signal(
    h: Seq<Seq<char>>,
    m: Seq<(Seq<char>, Seq<char>)>,
    row: Seq<Seq<char>>,
) -> bool {
    ||| clean_isbn_spec(mapped_field_text(h, m, row, "isbn13"@)) is Some
    ||| clean_isbn_spec(mapped_field_text(h, m, row, "isbn"@)) is Some
    ||| parse_opt_int(mapped_field_text(h, m, row, "goodreads_id"@)) is Some
    ||| (mapped_field_text(h, m, row, "title"@).len() > 0 && mapped_field_text(
        h,
        m,
        row,
        "author"@,
    ).len() > 0)
}

/// After a run, every parsed, valid row that carries a signal
/// collides with the store: either with the record it created or with
/// the record that made it a duplicate.
pub proof fn lemma_row_dup_after_run(
    s: StoreView,
    h: Seq<Seq<char>>,
    m: Seq<(Seq<char>, Seq<char>)>,
    rows: Seq<Option<Seq<Seq<char>>>>,
    n: int,
    k: int,
)
    requires
        0 <= k < n,
        rows[k] is Some,
        !row_invalid_spec(h, m, rows[k].unwrap()),
        row_has_signal(h, m, rows[k].unwrap()),
    ensures
        row_dup_spec(import_fold(s, h, m, rows, n).0, h, m, rows[k].unwrap()),
{
    let r = rows[k].unwrap();
    let foldk = import_fold(s, h, m, rows, k);
    let foldn = import_fold(s, h, m, rows, n);
    if row_dup_spec(foldk.0, h, m, r) {
        lemma_import_fold_prefix(s, h, m, rows, k, n);
        crate::store::lemma_dup_monotone(
            foldk.0.books,
            foldn.0.books,
            clean_isbn_spec(mapped_field_text(h, m, r, "isbn"@)),
            clean_isbn_spec(mapped_field_text(h, m, r, "isbn13"@)),
            parse_opt_int(mapped_field_text(h, m, r, "goodreads_id"@)),
            mapped_field_text(h, m, r, "title"@),
            mapped_field_text(h, m, r, "author"@),
        );
    } else {
        let rec = record_of_row(h, m, r);
        let s2 = add_record_spec(foldk.0, rec);
        let toks = shelf_tokens_spec(mapped_field_text(h, m, r, "bookshelves"@));
        lemma_link_fold_growth(s2, foldk.0.next_book_id, toks, toks.len() as int);
        let foldk1 = import_fold(s, h, m, rows, k + 1);
        let idx = foldk.0.books.len() as int;
        assert(foldk1.0.books[idx] == RecordView { id: foldk.0.next_book_id, ..rec });
        lemma_import_fold_prefix(s, h, m, rows, k + 1, n);
        assert(foldn.0.books[idx] == RecordView { id: foldk.0.next_book_id, ..rec });
        let placed = foldn.0.books[idx];
        if clean_isbn_spec(mapped_field_text(h, m, r, "isbn13"@)) is Some {
            assert(crate::store::has_isbn13(
                foldn.0.books,
                clean_isbn_spec(mapped_field_text(h, m, r, "isbn13"@)).unwrap(),
            ));
        } else if clean_isbn_spec(mapped_field_text(h, m, r, "isbn"@)) is Some {
            assert(crate::store::has_isbn(
                foldn.0.books,
                clean_isbn_spec(mapped_field_text(h, m, r, "isbn"@)).unwrap(),
            ));
        } else if parse_opt_int(mapped_field_text(h, m, r, "goodreads_id"@)) is Some {
            assert(crate::store::has_goodreads(
                foldn.0.books,
                parse_opt_int(mapped_field_text(h, m, r, "goodreads_id"@)).unwrap(),
            ));
        } else {
            assert(crate::text::eq_case_insensitive(
                placed.title,
                mapped_field_text(h, m, r, "title"@),
            ));
            assert(crate::text::eq_case_insensitive(
                placed.author,
                mapped_field_text(h, m, r, "author"@),
            ));
            assert(crate::store::has_title_author(
                foldn.0.books,
                mapped_field_text(h, m, r, "title"@),
                mapped_field_text(h, m, r, "author"@),
            ));
        }
    }
}

proof fn lemma_second_run_all_dup(
    s: StoreView,
    h: Seq<Seq<char>>,
    m: Seq<(Seq<char>, Seq<char>)>,
    rows: Seq<Option<Seq<Seq<char>>>>,
    n: int,
    k: int,
)
    requires
        0 <= k <= n,
        forall|i: int| 0 <= i < n ==> rows[i] is Some,
        forall|i: int| 0 <= i < n ==> !row_invalid_spec(h, m, (#[trigger] rows[i]).unwrap()),
        forall|i: int| 0 <= i < n ==> row_has_signal(h, m, (#[trigger] rows[i]).unwrap()),
    ensures
        import_fold(import_fold(s, h, m, rows, n).0, h, m, rows, k).0 == import_fold(
            s,
            h,
            m,
            rows,
            n,
        ).0,
        count_verdict(
            import_fold(import_fold(s, h, m, rows, n).0, h, m, rows, k).1,
            RowVerdict::Imported,
        ) == 0,
    decreases k,
{
    let s1 = import_fold(s, h, m, rows, n).0;
    if k > 0 {
        lemma_second_run_all_dup(s, h, m, rows, n, k - 1);
        lemma_row_dup_after_run(s, h, m, rows, n, k - 1);
        let prev2 = import_fold(s1, h, m, rows, k - 1);
        let v = import_row_spec(prev2.0, h, m, rows[k - 1]).1;
        assert(v == RowVerdict::Duplicate);
        lemma_count_verdict_push(prev2.1, v, RowVerdict::Imported);
    }
}

/// Importing the same well-formed dataset twice against the same
/// store imports nothing the second time: every row that parsed, was
/// valid, and carries at least one deduplication signal matches, on
/// the second run, either the record it created or the record that
/// made it a duplicate — and the store itself is left unchanged.
pub proof fn lemma_import_idempotent(
    s: StoreView,
    h: Seq<Seq<char>>,
    m: Seq<(Seq<char>, Seq<char>)>,
    rows: Seq<Option<Seq<Seq<char>>>>,
    n: int,
)
    requires
        0 <= n,
        forall|i: int| 0 <= i < n ==> rows[i] is Some,
        forall|i: int| 0 <= i < n ==> !row_invalid_spec(h, m, (#[trigger] rows[i]).unwrap()),
        forall|i: int| 0 <= i < n ==> row_has_signal(h, m, (#[trigger] rows[i]).unwrap()),
    ensures
        count_verdict(
            import_fold(import_fold(s, h, m, rows, n).0, h, m, rows, n).1,
            RowVerdict::Imported,
        ) == 0,
        import_fold(import_fold(s, h, m, rows, n).0, h, m, rows, n).0 == import_fold(
            s,
            h,
            m,
            rows,
            n,
        ).0,
{
    lemma_second_run_all_dup(s, h, m, rows, n, n);
}

/// Once a valid row with a given 13-digit code has been imported,
/// every later row carrying that same code is skipped, whatever its
/// title and author say.
pub proof fn lemma_same_isbn13_skipped(
    s: StoreView,
    h: Seq<Seq<char>>,
    m: Seq<(Seq<char>, Seq<char>)>,
    rows: Seq<Option<Seq<Seq<char>>>>,
    n: int,
    i: int,
    j: int,
)
    requires
        0 <= i < j < n,
        rows[i] is Some,
        rows[j] is Some,
        import_fold(s, h, m, rows, n).1[i] == RowVerdict::Imported,
        clean_isbn_spec(mapped_field_text(h, m, rows[i].unwrap(), "isbn13"@)) is Some,
        clean_isbn_spec(mapped_field_text(h, m, rows[j].unwrap(), "isbn13"@)) == clean_isbn_spec(
            mapped_field_text(h, m, rows[i].unwrap(), "isbn13"@),
        ),
    ensures
        import_fold(s, h, m, rows, n).1[j] != RowVerdict::Imported,
{
    let ri = rows[i].unwrap();
    let rj = rows[j].unwrap();
    let x = clean_isbn_spec(mapped_field_text(h, m, ri, "isbn13"@)).unwrap();
    let foldi = import_fold(s, h, m, rows, i);
    let foldi1 = import_fold(s, h, m, rows, i + 1);
    let foldj = import_fold(s, h, m, rows, j);
    let foldj1 = import_fold(s, h, m, rows, j + 1);
    let foldn = import_fold(s, h, m, rows, n);
    lemma_import_fold_prefix(s, h, m, rows, i + 1, n);
    lemma_import_fold_growth(s, h, m, rows, i);
    assert(foldn.1[i] == foldi1.1[i]);
    let vi = import_row_spec(foldi.0, h, m, rows[i]).1;
    assert(vi == RowVerdict::Imported);
    let rec = record_of_row(h, m, ri);
    let s2 = add_record_spec(foldi.0, rec);
    let toks = shelf_tokens_spec(mapped_field_text(h, m, ri, "bookshelves"@));
    lemma_link_fold_growth(s2, foldi.0.next_book_id, toks, toks.len() as int);
    let idx = foldi.0.books.len() as int;
    assert(foldi1.0.books[idx] == RecordView { id: foldi.0.next_book_id, ..rec });
    lemma_import_fold_prefix(s, h, m, rows, i + 1, j);
    assert(foldj.0.books[idx] == RecordView { id: foldi.0.next_book_id, ..rec });
    assert(crate::store::has_isbn13(foldj.0.books, x));
    lemma_import_fold_prefix(s, h, m, rows, j + 1, n);
    lemma_import_fold_growth(s, h, m, rows, j);
    assert(foldn.1[j] == foldj1.1[j]);
    let vj = import_row_spec(foldj.0, h, m, rows[j]).1;
    if !row_invalid_spec(h, m, rj) {
        assert(row_dup_spec(foldj.0, h, m, rj));
        assert(vj == RowVerdict::Duplicate);
    }
}

/// What the tabular reader returns as the header row of a text, if
/// the text has one it can parse.
pub uninterp spec fn csv_header_row(s: Seq<char>) -> Option<Seq<Seq<char>>>;

/// What the tabular reader returns as the data rows of a text, in
/// file order, one entry per row and `None` where a row failed to
/// parse.
pub uninterp spec fn csv_data_rows(s: Seq<char>) -> Seq<Option<Seq<Seq<char>>>>;

/// The view of an optional row.
pub open spec fn opt_row_view(o: Option<Vec<String>>) -> Option<Seq<Seq<char>>> {
    match o {
        Some(v) => Some(strings_view(v@)),
        None => None,
    }
}

/// Relies on csv::ReaderBuilder (header row on, flexible record
/// lengths on, reading from the text's bytes): `headers` yields the
/// header row and `records` the data rows in file order; both are
/// functions of the input text alone.
#[verifier::external_body]
fn parse_csv_text(text: &str) -> (r: (Option<Vec<String>>, Vec<Option<Vec<String>>>))
    ensures
        opt_row_view(r.0) == csv_header_row(text@),
        rows_view(r.1@) == csv_data_rows(text@),
{
    let mut reader = csv::ReaderBuilder::new().has_headers(true).flexible(true).from_reader(
        text.as_bytes(),
    );
    let headers: Option<Vec<String>> = match reader.headers() {
        Ok(h) => Some(h.iter().map(|c| c.to_string()).collect()),
        Err(_) => None,
    };
    let rows: Vec<Option<Vec<String>>> = reader.records().map(
        |res| res.ok().map(|rec| rec.iter().map(|c| c.to_string()).collect::<Vec<String>>()),
    ).collect();
    (headers, rows)
}

/// Every entry trimmed.
pub open spec fn trimmed_all(ss: Seq<Seq<char>>) -> Seq<Seq<char>> {
    ss.map_values(|x: Seq<char>| trimmed(x))
}

/// Return the trimmed header row of a tabular text, so a caller can
/// build a column mapping from it.
pub fn preview_csv_headers(csv_text: String) -> (r: Result<Vec<String>, String>)
    ensures
        match r {
            Ok(hs) => csv_header_row(csv_text@) matches Some(h) && strings_view(hs@) == trimmed_all(
                h,
            ),
            Err(_) => csv_header_row(csv_text@) is None,
        },
{
    let parsed = parse_csv_text(csv_text.as_str());
    match parsed.0 {
        Some(h) => {
            let ghost target = trimmed_all(strings_view(h@));
            let mut out: Vec<String> = Vec::new();
            let mut i: usize = 0;
            while i < h.len()
                invariant
                    i <= h@.len(),
                    target == trimmed_all(strings_view(h@)),
                    csv_header_row(csv_text@) == Some(strings_view(h@)),
                    target.len() == h@.len(),
                    strings_view(out@) == target.take(i as int),
                decreases h@.len() - i,
            {
                let t = trim_str(h[i].as_str());
                proof {
                    assert(strings_view(h@)[i as int] == h@[i as int]@);
                    assert(target[i as int] == trimmed(h@[i as int]@));
                }
                let ghost out0 = out@;
                out.push(t);
                proof {
                    assert(out@.drop_last() =~= out0);
                    assert(strings_view(out@) =~= strings_view(out0) + seq![t@]);
                    assert(strings_view(out@) =~= target.take(i as int + 1));
                }
                i = i + 1;
            }
            proof {
                assert(target.take(i as int) =~= target);
            }
            Ok(out)
        },
        None => Err(String::from_str("missing or unreadable header row")),
    }
}

proof fn lemma_cells_sum_mono(r: Seq<Seq<char>>, a: int, b: int)
    requires
        0 <= a <= b,
    ensures
        cells_len_sum(r, a) <= cells_len_sum(r, b),
    decreases b,
{
    if a < b {
        lemma_cells_sum_mono(r, a, b - 1);
    }
}

/// Compute a run's shelf-allocation budget, or report that it cannot
/// fit a 64-bit counter.
#[verifier::loop_isolation(false)]
fn compute_budget(rows: &Vec<Option<Vec<String>>>) -> (r: Option<i64>)
    ensures
        match r {
            Some(b) => 0 <= b && b as int == rows_budget(rows_view(rows@), rows@.len() as int),
            None => rows_budget(rows_view(rows@), rows@.len() as int) > i64::MAX,
        },
{
    let ghost rv = rows_view(rows@);
    let mut budget: i64 = 0;
    let mut i: usize = 0;
    while i < rows.len()
        invariant
            i <= rows@.len(),
            0 <= budget,
            budget as int == rows_budget(rv, i as int),
        decreases rows@.len() - i,
    {
        match &rows[i] {
            None => {
                proof {
                    assert(rv[i as int] is None);
                }
            },
            Some(rr) => {
                let ghost rowv = strings_view(rr@);
                proof {
                    assert(rv[i as int] == Some(rowv));
                }
                let mut rowsum: i64 = 1;
                let mut j: usize = 0;
                while j < rr.len()
                    invariant
                        j <= rr@.len(),
                        1 <= rowsum,
                        rowsum as int == cells_len_sum(rowv, j as int) + 1,
                    decreases rr@.len() - j,
                {
                    let len_j: usize = rr[j].as_str().unicode_len();
                    proof {
                        assert(rowv[j as int] == rr@[j as int]@);
                    }
                    if (len_j as u128) > ((i64::MAX - rowsum) as u128) {
                        proof {
                            lemma_cells_sum_mono(rowv, j as int + 1, rowv.len() as int);
                            lemma_rows_budget_mono(rv, i as int + 1, rv.len() as int);
                        }
                        return None;
                    }
                    rowsum = rowsum + (len_j as i64);
                    j = j + 1;
                }
                if rowsum > i64::MAX - budget {
                    proof {
                        lemma_rows_budget_mono(rv, i as int + 1, rv.len() as int);
                    }
                    return None;
                }
                budget = budget + rowsum;
            },
        }
        i = i + 1;
    }
    Some(budget)
}

/// The mapping a run uses: the explicit one when it is non-empty,
/// else the auto-detected one.
pub open spec fn effective_mapping_spec(
    headers: Seq<Seq<char>>,
    explicit: Option<Seq<(Seq<char>, Seq<char>)>>,
) -> Seq<(Seq<char>, Seq<char>)> {
    match explicit {
        Some(m) => if m.len() > 0 {
            m
        } else {
            auto_detect_spec(headers)
        },
        None => auto_detect_spec(headers),
    }
}

/// Whether a run's identifier allocation fits the store's counters.
pub open spec fn import_bounds_ok(s: StoreView, rows: Seq<Option<Seq<Seq<char>>>>) -> bool {
    &&& s.next_book_id + rows.len() <= i64::MAX
    &&& s.next_shelf_id + rows_budget(rows, rows.len() as int) <= i64::MAX
}

/// The view of an optional explicit mapping.
pub open spec fn opt_mapping_view(m: Option<Vec<(String, String)>>) -> Option<
    Seq<(Seq<char>, Seq<char>)>,
> {
    match m {
        Some(v) => Some(pairs_view(v@)),
        None => None,
    }
}

/// Import a tabular text: resolve the header row, pick the mapping,
/// and run the import over every data row.  Fails, leaving the store
/// untouched, exactly when the text has no readable header row or the
/// run cannot fit the store's identifier counters.
pub fn import_csv(
    store: &mut CatalogStore,
    csv_text: &String,
    column_map: Option<Vec<(String, String)>>,
) -> (r: Result<ImportResult, String>)
    requires
        old(store)@.wf(),
    ensures
        match r {
            Ok(res) => {
                &&& csv_header_row(csv_text@) matches Some(h) && {
                    let m = effective_mapping_spec(h, opt_mapping_view(column_map));
                    let rows = csv_data_rows(csv_text@);
                    &&& import_bounds_ok(old(store)@, rows)
                    &&& final(store)@ == import_fold(old(store)@, h, m, rows, rows.len() as int).0
                    &&& res.total == rows.len()
                    &&& res.imported == count_verdict(
                        import_fold(old(store)@, h, m, rows, rows.len() as int).1,
                        RowVerdict::Imported,
                    )
                    &&& strings_view(res.skipped@) == import_fold(
                        old(store)@,
                        h,
                        m,
                        rows,
                        rows.len() as int,
                    ).2
                }
            },
            Err(_) => {
                &&& final(store)@ == old(store)@
                &&& (csv_header_row(csv_text@) is None || !import_bounds_ok(
                    old(store)@,
                    csv_data_rows(csv_text@),
                ))
            },
        },
        final(store)@.wf(),
{
    let parsed = parse_csv_text(csv_text.as_str());
    let headers = match parsed.0 {
        Some(h) => h,
        None => {
            return Err(String::from_str("missing or unreadable header row"));
        },
    };
    let rows = parsed.1;
    let mapping: Vec<(String, String)> = match column_map {
        Some(m) => {
            if m.len() > 0 {
                m
            } else {
                auto_detect_columns(&headers)
            }
        },
        None => auto_detect_columns(&headers),
    };
    if rows.len() as u64 > (i64::MAX - store.next_book_id) as u64 {
        return Err(String::from_str("import would exhaust record identifiers"));
    }
    let budget = match compute_budget(&rows) {
        Some(b) => b,
        None => {
            return Err(String::from_str("import would exhaust shelf identifiers"));
        },
    };
    if store.next_shelf_id > i64::MAX - budget {
        return Err(String::from_str("import would exhaust shelf identifiers"));
    }
    Ok(import_rows(store, &headers, &mapping, &rows))
}

} // verus!
