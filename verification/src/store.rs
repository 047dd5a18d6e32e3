//! An in-memory model of the catalog store: records, shelves, and the
//! record-shelf association, together with the deduplication chain the
//! import engine runs against it.
//!
//! The import engine holds exclusive access to the store for a run's
//! duration, so a plain value model suffices; a persistence layer can
//! mirror every operation one to one.

use vstd::prelude::*;

use crate::model::{opt_int_view, opt_text_view, CatalogRecord, RecordView, ShelfInfo};
use crate::text::eq_case_insensitive;

verus! {

/// The mathematical view of the store.
pub struct StoreView {
    pub books: Seq<RecordView>,
    pub shelves: Seq<(int, Seq<char>)>,
    pub links: Seq<(int, int)>,
    pub next_book_id: int,
    pub next_shelf_id: int,
}

/// The views of a sequence of records.
pub open spec fn books_view(bs: Seq<CatalogRecord>) -> Seq<RecordView> {
    bs.map_values(|b: CatalogRecord| b@)
}

/// The catalog store.
pub struct CatalogStore {
    pub books: Vec<CatalogRecord>,
    pub shelves: Vec<ShelfInfo>,
    pub links: Vec<(i64, i64)>,
    pub next_book_id: i64,
    pub next_shelf_id: i64,
}

impl View for CatalogStore {
    type V = StoreView;

    open spec fn view(&self) -> StoreView {
        StoreView {
            books: books_view(self.books@),
            shelves: self.shelves@.map_values(|s: ShelfInfo| (s.id as int, s.name@)),
            links: self.links@.map_values(|l: (i64, i64)| (l.0 as int, l.1 as int)),
            next_book_id: self.next_book_id as int,
            next_shelf_id: self.next_shelf_id as int,
        }
    }
}

impl StoreView {
    /// Well-formedness: identifiers are positive, unique, and below
    /// their next-identifier counters; shelf names are unique; links
    /// are unique pairs.
    pub open spec fn wf(self) -> bool {
        &&& 1 <= self.next_book_id
        &&& 1 <= self.next_shelf_id
        &&& forall|i: int|
            0 <= i < self.books.len() ==> 1 <= #[trigger] self.books[i].id < self.next_book_id
        &&& forall|i: int, j: int|
            0 <= i < self.books.len() && 0 <= j < self.books.len() && i != j
                ==> #[trigger] self.books[i].id != #[trigger] self.books[j].id
        &&& forall|i: int|
            0 <= i < self.shelves.len() ==> 1 <= (#[trigger] self.shelves[i]).0
                < self.next_shelf_id
        &&& forall|i: int, j: int|
            0 <= i < self.shelves.len() && 0 <= j < self.shelves.len() && i != j
                ==> (#[trigger] self.shelves[i]).0 != (#[trigger] self.shelves[j]).0
        &&& forall|i: int, j: int|
            0 <= i < self.shelves.len() && 0 <= j < self.shelves.len() && i != j
                ==> (#[trigger] self.shelves[i]).1 != (#[trigger] self.shelves[j]).1
        &&& forall|i: int, j: int|
            0 <= i < self.links.len() && 0 <= j < self.links.len() && i != j
                ==> #[trigger] self.links[i] != #[trigger] self.links[j]
    }
}

/// Some record carries this 13-digit code.
pub open spec fn has_isbn13(books: Seq<RecordView>, id: Seq<char>) -> bool {
    exists|i: int| 0 <= i < books.len() && (#[trigger] books[i]).isbn13 == Some(id)
}

/// Some record carries this 10-digit code.
pub open spec fn has_isbn(books: Seq<RecordView>, id: Seq<char>) -> bool {
    exists|i: int| 0 <= i < books.len() && (#[trigger] books[i]).isbn == Some(id)
}

/// Some record carries this external identifier.
pub open spec fn has_goodreads(books: Seq<RecordView>, g: int) -> bool {
    exists|i: int| 0 <= i < books.len() && (#[trigger] books[i]).goodreads_id == Some(g)
}

/// Some record matches this title and author up to ASCII case.
pub open spec fn has_title_author(books: Seq<RecordView>, t: Seq<char>, a: Seq<char>) -> bool {
    exists|i: int|
        0 <= i < books.len() && eq_case_insensitive((#[trigger] books[i]).title, t)
            && eq_case_insensitive(books[i].author, a)
}

/// The deduplication chain: an incoming row collides when any of its
/// present identity signals matches an existing record — the 13-digit
/// code, then the 10-digit code, then the external identifier, then
/// the case-insensitive (title, author) pair.
pub open spec fn is_dup_spec(
    books: Seq<RecordView>,
    isbn: Option<Seq<char>>,
    isbn13: Option<Seq<char>>,
    goodreads_id: Option<int>,
    title: Seq<char>,
    author: Seq<char>,
) -> bool {
    ||| (isbn13 matches Some(x) && has_isbn13(books, x))
    ||| (isbn matches Some(x) && has_isbn(books, x))
    ||| (goodreads_id matches Some(g) && has_goodreads(books, g))
    ||| (title.len() > 0 && author.len() > 0 && has_title_author(books, title, author))
}

/// A record appended under the next free identifier.
pub open spec fn add_record_spec(s: StoreView, r: RecordView) -> StoreView {
    StoreView {
        books: s.books.push(RecordView { id: s.next_book_id, ..r }),
        next_book_id: s.next_book_id + 1,
        ..s
    }
}

/// First-match lookup of a shelf by name.
pub open spec fn shelf_id_of(shelves: Seq<(int, Seq<char>)>, name: Seq<char>) -> Option<int>
    decreases shelves.len(),
{
    if shelves.len() == 0 {
        None
    } else if shelves[0].1 == name {
        Some(shelves[0].0)
    } else {
        shelf_id_of(shelves.skip(1), name)
    }
}

/// Create-or-reuse of a shelf by name.
pub open spec fn ensure_shelf_spec(s: StoreView, name: Seq<char>) -> (StoreView, int) {
    match shelf_id_of(s.shelves, name) {
        Some(id) => (s, id),
        None => (
            StoreView {
                shelves: s.shelves.push((s.next_shelf_id, name)),
                next_shelf_id: s.next_shelf_id + 1,
                ..s
            },
            s.next_shelf_id,
        ),
    }
}

/// Insert-or-ignore of a record-shelf association.
pub open spec fn link_spec(s: StoreView, book_id: int, shelf_id: int) -> StoreView {
    if s.links.contains((book_id, shelf_id)) {
        s
    } else {
        StoreView { links: s.links.push((book_id, shelf_id)), ..s }
    }
}

fn scan_isbn13(books: &Vec<CatalogRecord>, id: &String) -> (r: bool)
    ensures
        r == has_isbn13(books_view(books@), id@),
{
    let mut i: usize = 0;
    while i < books.len()
        invariant
            i <= books@.len(),
            forall|k: int| 0 <= k < i ==> (#[trigger] books_view(books@)[k]).isbn13 != Some(id@),
        decreases books@.len() - i,
    {
        match &books[i].isbn13 {
            Some(s) => {
                if *s == *id {
                    proof {
                        assert(books_view(books@)[i as int].isbn13 == Some(id@));
                    }
                    return true;
                }
            },
            None => {},
        }
        i = i + 1;
    }
    false
}

fn scan_isbn(books: &Vec<CatalogRecord>, id: &String) -> (r: bool)
    ensures
        r == has_isbn(books_view(books@), id@),
{
    let mut i: usize = 0;
    while i < books.len()
        invariant
            i <= books@.len(),
            forall|k: int| 0 <= k < i ==> (#[trigger] books_view(books@)[k]).isbn != Some(id@),
        decreases books@.len() - i,
    {
        match &books[i].isbn {
            Some(s) => {
                if *s == *id {
                    proof {
                        assert(books_view(books@)[i as int].isbn == Some(id@));
                    }
                    return true;
                }
            },
            None => {},
        }
        i = i + 1;
    }
    false
}

fn scan_goodreads(books: &Vec<CatalogRecord>, g: i64) -> (r: bool)
    ensures
        r == has_goodreads(books_view(books@), g as int),
{
    let mut i: usize = 0;
    while i < books.len()
        invariant
            i <= books@.len(),
            forall|k: int|
                0 <= k < i ==> (#[trigger] books_view(books@)[k]).goodreads_id != Some(g as int),
        decreases books@.len() - i,
    {
        match books[i].goodreads_id {
            Some(x) => {
                if x == g {
                    proof {
                        assert(books_view(books@)[i as int].goodreads_id == Some(g as int));
                    }
                    return true;
                }
            },
            None => {},
        }
        i = i + 1;
    }
    false
}

fn scan_title_author(books: &Vec<CatalogRecord>, title: &String, author: &String) -> (r: bool)
    ensures
        r == has_title_author(books_view(books@), title@, author@),
{
    let mut i: usize = 0;
    while i < books.len()
        invariant
            i <= books@.len(),
            forall|k: int|
                0 <= k < i ==> !(eq_case_insensitive(
                    (#[trigger] books_view(books@)[k]).title,
                    title@,
                ) && eq_case_insensitive(books_view(books@)[k].author, author@)),
        decreases books@.len() - i,
    {
        let ti = crate::text::eq_ignore_case(books[i].title.as_str(), title.as_str());
        let au = crate::text::eq_ignore_case(books[i].author.as_str(), author.as_str());
        if ti && au {
            proof {
                assert(eq_case_insensitive(books_view(books@)[i as int].title, title@));
                assert(eq_case_insensitive(books_view(books@)[i as int].author, author@));
            }
            return true;
        }
        i = i + 1;
    }
    false
}

impl CatalogStore {
    /// An empty store.
    pub fn new() -> (r: CatalogStore)
        ensures
            r@.books.len() == 0,
            r@.shelves.len() == 0,
            r@.links.len() == 0,
            r@.next_book_id == 1,
            r@.next_shelf_id == 1,
            r@.wf(),
    {
        CatalogStore {
            books: Vec::new(),
            shelves: Vec::new(),
            links: Vec::new(),
            next_book_id: 1,
            next_shelf_id: 1,
        }
    }

    /// Run the deduplication chain against the stored records.
    pub fn is_duplicate(
        &self,
        isbn: &Option<String>,
        isbn13: &Option<String>,
        goodreads_id: Option<i64>,
        title: &String,
        author: &String,
    ) -> (r: bool)
        ensures
            r == is_dup_spec(
                self@.books,
                opt_text_view(*isbn),
                opt_text_view(*isbn13),
                opt_int_view(goodreads_id),
                title@,
                author@,
            ),
    {
        match isbn13 {
            Some(id) => {
                if scan_isbn13(&self.books, id) {
                    return true;
                }
            },
            None => {},
        }
        match isbn {
            Some(id) => {
                if scan_isbn(&self.books, id) {
                    return true;
                }
            },
            None => {},
        }
        match goodreads_id {
            Some(g) => {
                if scan_goodreads(&self.books, g) {
                    return true;
                }
            },
            None => {},
        }
        if title.as_str().unicode_len() > 0 && author.as_str().unicode_len() > 0 {
            if scan_title_author(&self.books, title, author) {
                return true;
            }
        }
        false
    }

    /// Append a record under the next free identifier.
    pub fn add_record(&mut self, rec: CatalogRecord) -> (id: i64)
        requires
            old(self)@.wf(),
            old(self)@.next_book_id < i64::MAX,
        ensures
            final(self)@ == add_record_spec(old(self)@, rec@),
            final(self)@.wf(),
            id == old(self)@.next_book_id,
    {
        let id = self.next_book_id;
        let mut rec = rec;
        rec.id = id;
        self.books.push(rec);
        self.next_book_id = self.next_book_id + 1;
        proof {
            assert(self@.books =~= add_record_spec(old(self)@, rec@).books);
            assert(self@ =~~= add_record_spec(old(self)@, rec@));
        }
        id
    }

    /// Create-or-reuse a shelf by name; linkage is idempotent, so an
    /// existing shelf is a success, not a conflict.
    pub fn ensure_shelf(&mut self, name: &String) -> (id: i64)
        requires
            old(self)@.wf(),
            old(self)@.next_shelf_id < i64::MAX,
        ensures
            final(self)@ == ensure_shelf_spec(old(self)@, name@).0,
            id as int == ensure_shelf_spec(old(self)@, name@).1,
            final(self)@.wf(),
            shelf_id_of(final(self)@.shelves, name@) == Some(id as int),
    {
        let mut i: usize = 0;
        proof {
            assert(self@.shelves.skip(0) =~= self@.shelves);
        }
        while i < self.shelves.len()
            invariant
                i <= self.shelves@.len(),
                self@.shelves.len() == self.shelves@.len(),
                self@ == old(self)@,
                old(self)@.wf(),
                shelf_id_of(self@.shelves, name@) == shelf_id_of(
                    self@.shelves.skip(i as int),
                    name@,
                ),
                forall|k: int| 0 <= k < i ==> (#[trigger] self@.shelves[k]).1 != name@,
            decreases self.shelves@.len() - i,
        {
            let ghost rest = self@.shelves.skip(i as int);
            proof {
                assert(rest[0] == self@.shelves[i as int]);
                assert(rest.skip(1) =~= self@.shelves.skip(i as int + 1));
            }
            if self.shelves[i].name == *name {
                return self.shelves[i].id;
            }
            i = i + 1;
        }
        proof {
            assert(self@.shelves.skip(i as int) =~= Seq::<(int, Seq<char>)>::empty());
            assert(shelf_id_of(self@.shelves, name@) is None);
        }
        let id = self.next_shelf_id;
        self.shelves.push(ShelfInfo { id, name: name.clone() });
        self.next_shelf_id = self.next_shelf_id + 1;
        proof {
            let target = ensure_shelf_spec(old(self)@, name@).0;
            assert(self@.shelves =~= target.shelves);
            assert(self@ =~~= target);
            assert(self@.shelves.last() == (id as int, name@));
            lemma_shelf_id_of_present(self@.shelves, name@, self@.shelves.len() - 1);
        }
        id
    }

    /// Insert-or-ignore a record-shelf association.
    pub fn link(&mut self, book_id: i64, shelf_id: i64) -> (r: ())
        requires
            old(self)@.wf(),
        ensures
            final(self)@ == link_spec(old(self)@, book_id as int, shelf_id as int),
            final(self)@.wf(),
    {
        let mut i: usize = 0;
        while i < self.links.len()
            invariant
                i <= self.links@.len(),
                self@.links.len() == self.links@.len(),
                self@ == old(self)@,
                old(self)@.wf(),
                forall|k: int|
                    0 <= k < i ==> #[trigger] self@.links[k] != (book_id as int, shelf_id as int),
            decreases self.links@.len() - i,
        {
            let l = self.links[i];
            if l.0 == book_id && l.1 == shelf_id {
                proof {
                    assert(self@.links[i as int] == (book_id as int, shelf_id as int));
                    assert(self@.links.contains((book_id as int, shelf_id as int)));
                }
                return ();
            }
            i = i + 1;
        }
        proof {
            assert(forall|k: int|
                0 <= k < self@.links.len() ==> #[trigger] self@.links[k] != (
                    book_id as int,
                    shelf_id as int,
                ));
            assert(!self@.links.contains((book_id as int, shelf_id as int)));
        }
        self.links.push((book_id, shelf_id));
        proof {
            let target = link_spec(old(self)@, book_id as int, shelf_id as int);
            assert(self@.links =~= target.links);
            assert(self@ =~~= target);
        }
    }
}

/// The column list a persistence layer selects for a record, with
/// the reading-effort score computed on read under the
/// fixed-reference-length policy.
pub fn select_columns() -> (r: String)
    ensures
        r@
            == "books.id, books.goodreads_id, books.title, books.author, books.author_sort, books.additional_authors, books.isbn, books.isbn13, books.my_rating, books.average_rating, books.publisher, books.binding, books.pages, CASE WHEN books.pages > 0 THEN ROUND(books.pages * 1.0 / 348, 2) ELSE NULL END AS beq, books.edition_published, books.year_published, books.date_read, books.year_read, books.date_added, books.exclusive_shelf, books.my_review, books.read_count, books.owned_copies, books.cover_url, books.open_library_key, books.created_at, books.updated_at, books.book_type"@,
{
    String::from_str(
        "books.id, books.goodreads_id, books.title, books.author, books.author_sort, books.additional_authors, books.isbn, books.isbn13, books.my_rating, books.average_rating, books.publisher, books.binding, books.pages, CASE WHEN books.pages > 0 THEN ROUND(books.pages * 1.0 / 348, 2) ELSE NULL END AS beq, books.edition_published, books.year_published, books.date_read, books.year_read, books.date_added, books.exclusive_shelf, books.my_review, books.read_count, books.owned_copies, books.cover_url, books.open_library_key, books.created_at, books.updated_at, books.book_type",
    )
}

proof fn lemma_shelf_id_of_present(shelves: Seq<(int, Seq<char>)>, name: Seq<char>, i: int)
    requires
        0 <= i < shelves.len(),
        shelves[i].1 == name,
        forall|k: int| 0 <= k < i ==> (#[trigger] shelves[k]).1 != name,
    ensures
        shelf_id_of(shelves, name) == Some(shelves[i].0),
    decreases i,
{
    if i == 0 {
    } else {
        let t = shelves.skip(1);
        assert(forall|k: int| 0 <= k < i - 1 ==> (#[trigger] t[k]).1 != name);
        lemma_shelf_id_of_present(t, name, i - 1);
    }
}

/// A matched identity signal keeps matching when the record list only
/// grows: deduplication within and across runs is monotone.
pub proof fn lemma_dup_monotone(
    b1: Seq<RecordView>,
    b2: Seq<RecordView>,
    isbn: Option<Seq<char>>,
    isbn13: Option<Seq<char>>,
    goodreads_id: Option<int>,
    title: Seq<char>,
    author: Seq<char>,
)
    requires
        b1.len() <= b2.len(),
        forall|i: int| 0 <= i < b1.len() ==> b2[i] == b1[i],
        is_dup_spec(b1, isbn, isbn13, goodreads_id, title, author),
    ensures
        is_dup_spec(b2, isbn, isbn13, goodreads_id, title, author),
{
}

} // verus!
