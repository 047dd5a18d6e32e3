//! The normalized record model: catalog records, shelves, run
//! summaries, and the derived reading-effort score.

use vstd::prelude::*;

verus! {

/// The fixed reference length, in pages, against which the
/// reading-effort score is normalized.  The library uses the
/// fixed-reference-length policy throughout: a book's score is its
/// page count divided by this constant, kept in hundredths.
pub const REFERENCE_PAGES: i64 = 348;

/// A normalized catalog record.  Optional text fields hold `None`
/// where the source supplied nothing; the external average rating is
/// kept as the raw source text, since its only consumer parses it at
/// the store boundary.
pub struct CatalogRecord {
    pub id: i64,
    pub goodreads_id: Option<i64>,
    pub title: String,
    pub author: String,
    pub author_sort: Option<String>,
    pub additional_authors: Option<String>,
    pub isbn: Option<String>,
    pub isbn13: Option<String>,
    pub my_rating: i64,
    pub average_rating_text: Option<String>,
    pub publisher: Option<String>,
    pub binding: Option<String>,
    pub pages: Option<i64>,
    pub edition_published: Option<i64>,
    pub year_published: Option<i64>,
    pub date_read: Option<String>,
    pub year_read: Option<i64>,
    pub date_added: String,
    pub exclusive_shelf: String,
    pub my_review: Option<String>,
    pub read_count: i64,
    pub owned_copies: i64,
    pub cover_url: Option<String>,
    pub book_type: String,
}

/// The mathematical view of a catalog record.
pub struct RecordView {
    pub id: int,
    pub goodreads_id: Option<int>,
    pub title: Seq<char>,
    pub author: Seq<char>,
    pub author_sort: Option<Seq<char>>,
    pub additional_authors: Option<Seq<char>>,
    pub isbn: Option<Seq<char>>,
    pub isbn13: Option<Seq<char>>,
    pub my_rating: int,
    pub average_rating_text: Option<Seq<char>>,
    pub publisher: Option<Seq<char>>,
    pub binding: Option<Seq<char>>,
    pub pages: Option<int>,
    pub edition_published: Option<int>,
    pub year_published: Option<int>,
    pub date_read: Option<Seq<char>>,
    pub year_read: Option<int>,
    pub date_added: Seq<char>,
    pub exclusive_shelf: Seq<char>,
    pub my_review: Option<Seq<char>>,
    pub read_count: int,
    pub owned_copies: int,
    pub cover_url: Option<Seq<char>>,
    pub book_type: Seq<char>,
}

/// The view of an optional string.
pub open spec fn opt_text_view(o: Option<String>) -> Option<Seq<char>> {
    match o {
        Some(s) => Some(s@),
        None => None,
    }
}

/// The view of an optional 64-bit integer.
pub open spec fn opt_int_view(o: Option<i64>) -> Option<int> {
    match o {
        Some(n) => Some(n as int),
        None => None,
    }
}

impl View for CatalogRecord {
    type V = RecordView;

    open spec fn view(&self) -> RecordView {
        RecordView {
            id: self.id as int,
            goodreads_id: opt_int_view(self.goodreads_id),
            title: self.title@,
            author: self.author@,
            author_sort: opt_text_view(self.author_sort),
            additional_authors: opt_text_view(self.additional_authors),
            isbn: opt_text_view(self.isbn),
            isbn13: opt_text_view(self.isbn13),
            my_rating: self.my_rating as int,
            average_rating_text: opt_text_view(self.average_rating_text),
            publisher: opt_text_view(self.publisher),
            binding: opt_text_view(self.binding),
            pages: opt_int_view(self.pages),
            edition_published: opt_int_view(self.edition_published),
            year_published: opt_int_view(self.year_published),
            date_read: opt_text_view(self.date_read),
            year_read: opt_int_view(self.year_read),
            date_added: self.date_added@,
            exclusive_shelf: self.exclusive_shelf@,
            my_review: opt_text_view(self.my_review),
            read_count: self.read_count as int,
            owned_copies: self.owned_copies as int,
            cover_url: opt_text_view(self.cover_url),
            book_type: self.book_type@,
        }
    }
}

/// A named shelf.
pub struct ShelfInfo {
    pub id: i64,
    pub name: String,
}

/// A shelf together with the number of records linked to it.
pub struct ShelfWithCount {
    pub id: i64,
    pub name: String,
    pub count: i64,
}

/// The ephemeral summary of one import run.
#[derive(Debug)]
pub struct ImportResult {
    pub imported: i64,
    pub total: i64,
    pub skipped: Vec<String>,
}

/// How many records carry a given rating.
pub struct RatingCount {
    pub rating: i64,
    pub count: i64,
}

/// How many records sit on a given exclusive shelf.
pub struct ShelfCount {
    pub shelf: Option<String>,
    pub count: i64,
}

/// The outcome of a batch cover-repair sweep.
pub struct FixCoversResult {
    pub fixed: i64,
    pub checked: i64,
}

/// Book data returned by the identifier-lookup service.
pub struct OpenLibraryBookData {
    pub title: Option<String>,
    pub authors: Option<Vec<OpenLibraryAuthor>>,
    pub publishers: Option<Vec<OpenLibraryPublisher>>,
    pub number_of_pages: Option<i64>,
    pub publish_date: Option<String>,
    pub cover: Option<OpenLibraryCover>,
}

pub struct OpenLibraryAuthor {
    pub name: String,
}

pub struct OpenLibraryPublisher {
    pub name: String,
}

pub struct OpenLibraryCover {
    pub small: Option<String>,
    pub medium: Option<String>,
    pub large: Option<String>,
}

/// The reading-effort score in hundredths under the
/// fixed-reference-length policy: page count divided by
/// `REFERENCE_PAGES`, rounded half-up to two decimals; absent when the
/// page count is absent or non-positive.
pub open spec fn effort_centi_spec(pages: Option<int>) -> Option<int> {
    match pages {
        Some(p) => if p > 0 {
            Some((100 * p + 174) / 348)
        } else {
            None
        },
        None => None,
    }
}

/// Relies on std::time::SystemTime::now and duration_since: the
/// seconds since the Unix epoch, or zero for a clock set before it.
#[verifier::external_body]
fn unix_seconds_now() -> u64 {
    match std::time::SystemTime::now().duration_since(std::time::UNIX_EPOCH) {
        Ok(d) => d.as_secs(),
        Err(_) => 0,
    }
}

/// The default addition-date label for a moment this many seconds
/// after the epoch: the current year under a 365-day-year
/// approximation, with a fixed month and day.
pub open spec fn today_label_spec(secs: int) -> Seq<char> {
    crate::text::dec_str(1970 + secs / 86400 / 365) + "/01/01"@
}

/// Format the default addition-date label for a given moment.
pub fn today_label(secs: u64) -> (r: String)
    ensures
        r@ == today_label_spec(secs as int),
{
    let years: u64 = 1970 + secs / 86400 / 365;
    let mut s = crate::text::u64_to_string(years);
    s.append("/01/01");
    s
}

/// Today's default addition-date label, read from the system clock.
pub fn chrono_today() -> (r: String)
    ensures
        exists|secs: int| 0 <= secs && r@ == today_label_spec(secs),
{
    let secs = unix_seconds_now();
    let r = today_label(secs);
    proof {
        assert(r@ == today_label_spec(secs as int));
    }
    r
}

/// Compute the reading-effort score in hundredths.  A book of exactly
/// the reference length scores 100, that is, 1.00.
pub fn reading_effort_centi(pages: Option<i64>) -> (r: Option<i64>)
    ensures
        opt_int_view(r) == effort_centi_spec(opt_int_view(pages)),
{
    match pages {
        Some(p) => {
            if p > 0 {
                let wide: i128 = (100i128 * (p as i128) + 174) / 348;
                proof {
                    assert(100 * (p as int) + 174 <= 100 * (i64::MAX as int) + 174);
                }
                Some(wide as i64)
            } else {
                None
            }
        },
        None => None,
    }
}

} // verus!
