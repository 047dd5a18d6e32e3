//! The cover resolver: three candidate fetchers driven in fixed
//! priority order with short-circuiting, a placeholder validator for
//! the fallback image host, and the decisions of the batch repair
//! sweep.
//!
//! Network transport lives outside the library.  A caller drives the
//! `CoverResolver` state machine: it performs the action the machine
//! hands out (an HTTP fetch or a header-only probe) and feeds the
//! outcome back as an event; every decision in between is verified
//! here.

use vstd::prelude::*;

use crate::model::opt_text_view;
use crate::text::{has_substring, replace_spec, replace_str, str_contains};

verus! {

/// The fallback image host's templated cover URL for an identifier.
pub open spec fn cover_url_spec(id: Seq<char>) -> Seq<char> {
    "https://covers.openlibrary.org/b/isbn/"@ + id + "-M.jpg"@
}

/// Build the fallback image host's cover URL for an identifier.
pub fn openlibrary_cover_url(id: &str) -> (r: String)
    ensures
        r@ == cover_url_spec(id@),
{
    let mut s = String::from_str("https://covers.openlibrary.org/b/isbn/");
    s.append(id);
    s.append("-M.jpg");
    s
}

/// The identifier a record offers for cover construction: the
/// 13-digit code when one is present, else the 10-digit code.
pub open spec fn chosen_ident(isbn: Option<Seq<char>>, isbn13: Option<Seq<char>>) -> Option<
    Seq<char>,
> {
    match isbn13 {
        Some(x) => Some(x),
        None => isbn,
    }
}

/// The deterministic cover URL derived from the identifier codes, or
/// absent when the chosen code is absent or empty.
pub open spec fn get_cover_url_spec(isbn: Option<Seq<char>>, isbn13: Option<Seq<char>>) -> Option<
    Seq<char>,
> {
    match chosen_ident(isbn, isbn13) {
        Some(id) => if id.len() == 0 {
            None
        } else {
            Some(cover_url_spec(id))
        },
        None => None,
    }
}

/// Construct the deterministic cover URL from the identifier codes.
/// This is a construction, not a network fetch.
pub fn get_cover_url(isbn: &Option<String>, isbn13: &Option<String>) -> (r: Option<String>)
    ensures
        opt_text_view(r) == get_cover_url_spec(opt_text_view(*isbn), opt_text_view(*isbn13)),
{
    let id: &String = match isbn13 {
        Some(x) => x,
        None => match isbn {
            Some(x) => x,
            None => {
                return None;
            },
        },
    };
    if id.as_str().unicode_len() == 0 {
        return None;
    }
    Some(openlibrary_cover_url(id.as_str()))
}

/// A response from the metadata catalog service, reduced to the
/// nesting the resolver reads.
pub struct GoogleBooksResponse {
    pub total_items: Option<i64>,
    pub items: Option<Vec<GoogleBooksItem>>,
}

pub struct GoogleBooksItem {
    pub volume_info: Option<GoogleBooksVolumeInfo>,
}

pub struct GoogleBooksVolumeInfo {
    pub image_links: Option<GoogleBooksImageLinks>,
}

pub struct GoogleBooksImageLinks {
    pub thumbnail: Option<String>,
}

/// An insecure-scheme thumbnail link rewritten to the secure scheme
/// and to the largest zoom variant.
pub open spec fn cleaned_thumbnail(url: Seq<char>) -> Seq<char> {
    replace_spec(
        replace_spec(replace_spec(url, "http://"@, "https://"@), "&zoom=1"@, "&zoom=0"@),
        "zoom=1"@,
        "zoom=0"@,
    )
}

/// The first result's thumbnail link, if every nesting level is
/// present; absence at any level is "no result", never an error.
pub open spec fn extract_thumbnail_spec(resp: GoogleBooksResponse) -> Option<Seq<char>> {
    match resp.items {
        Some(items) => if items@.len() == 0 {
            None
        } else {
            match items@[0].volume_info {
                Some(vi) => match vi.image_links {
                    Some(il) => match il.thumbnail {
                        Some(t) => Some(cleaned_thumbnail(t@)),
                        None => None,
                    },
                    None => None,
                },
                None => None,
            }
        },
        None => None,
    }
}

/// Extract and clean the thumbnail URL from a metadata catalog
/// response.
pub fn extract_google_thumbnail(resp: &GoogleBooksResponse) -> (r: Option<String>)
    ensures
        opt_text_view(r) == extract_thumbnail_spec(*resp),
{
    proof {
        reveal_strlit("http://");
        reveal_strlit("https://");
        reveal_strlit("&zoom=1");
        reveal_strlit("&zoom=0");
        reveal_strlit("zoom=1");
        reveal_strlit("zoom=0");
    }
    match &resp.items {
        Some(items) => {
            if items.len() == 0 {
                None
            } else {
                match &items[0].volume_info {
                    Some(vi) => match &vi.image_links {
                        Some(il) => match &il.thumbnail {
                            Some(t) => {
                                let step1 = replace_str(t.as_str(), "http://", "https://");
                                let step2 = replace_str(step1.as_str(), "&zoom=1", "&zoom=0");
                                Some(replace_str(step2.as_str(), "zoom=1", "zoom=0"))
                            },
                            None => None,
                        },
                        None => None,
                    },
                    None => None,
                }
            }
        },
        None => None,
    }
}

/// Content lengths at or below this many bytes mark the fallback
/// host's stand-in graphic rather than a real cover.
pub const PLACEHOLDER_MAX_BYTES: u64 = 1000;

/// The placeholder validator's verdict on an existence probe: real
/// exactly when the probe succeeded and reported a parseable content
/// length above the placeholder threshold.
pub open spec fn probe_is_real_spec(success: bool, content_length: Option<u64>) -> bool {
    success && match content_length {
        Some(l) => l > PLACEHOLDER_MAX_BYTES,
        None => false,
    }
}

/// Judge an existence probe's response: any non-success status, a
/// missing or unparseable content length, or a content length at or
/// below the threshold is invalid.
pub fn image_probe_is_real(success: bool, content_length: Option<u64>) -> (r: bool)
    ensures
        r == probe_is_real_spec(success, content_length),
{
    if !success {
        return false;
    }
    match content_length {
        Some(l) => l > PLACEHOLDER_MAX_BYTES,
        None => false,
    }
}

/// The inputs of one cover resolution.
pub struct CoverQuery {
    pub isbn: Option<String>,
    pub isbn13: Option<String>,
    pub title: String,
    pub author: String,
}

/// The view of a cover query.
pub struct QueryView {
    pub isbn: Option<Seq<char>>,
    pub isbn13: Option<Seq<char>>,
    pub title: Seq<char>,
    pub author: Seq<char>,
}

impl View for CoverQuery {
    type V = QueryView;

    open spec fn view(&self) -> QueryView {
        QueryView {
            isbn: opt_text_view(self.isbn),
            isbn13: opt_text_view(self.isbn13),
            title: self.title@,
            author: self.author@,
        }
    }
}

/// The identifier the resolver queries by: the 13-digit code, else
/// the 10-digit code, and absent when the chosen code is empty.
pub open spec fn resolver_ident(q: QueryView) -> Option<Seq<char>> {
    match chosen_ident(q.isbn, q.isbn13) {
        Some(id) => if id.len() > 0 {
            Some(id)
        } else {
            None
        },
        None => None,
    }
}

/// Which strategy of the fallback chain the resolver sits before.
pub enum ResolveStage {
    PrimaryById,
    FallbackHost,
    PrimaryByQuery,
    Finished,
}

/// What the driver must do next.
pub enum CoverAction {
    /// Query the metadata catalog service by identifier; feed back
    /// `Fetched` with the extracted thumbnail.
    FetchPrimaryById(String),
    /// Probe this fallback-host URL for existence; feed back `Probed`
    /// with the validator's verdict.
    ProbeFallbackHost(String),
    /// Query the metadata catalog service by title and author; feed
    /// back `Fetched` with the extracted thumbnail.
    FetchPrimaryByQuery(String, String),
    /// Resolution is over; the payload is the result.
    Finish(Option<String>),
}

/// What the outside world reported back for the last action.
pub enum ResolveEvent {
    Fetched(Option<String>),
    Probed(bool),
}

/// The cover resolver's state between actions.
pub struct CoverResolver {
    pub query: CoverQuery,
    pub stage: ResolveStage,
}

impl CoverResolver {
    /// States whose strategies require an identifier hold one.
    pub open spec fn wf(self) -> bool {
        (self.stage is PrimaryById || self.stage is FallbackHost) ==> resolver_ident(
            self.query@,
        ) is Some
    }

    /// Start a resolution: the identifier lookup runs first when an
    /// identifier exists; else the title-and-author search when both
    /// are non-empty; else the resolution finishes empty at once.
    pub fn start(query: CoverQuery) -> (r: (CoverResolver, CoverAction))
        ensures
            r.0.query == query,
            r.0.wf(),
            match resolver_ident(query@) {
                Some(id) => r.0.stage is PrimaryById && (r.1 matches CoverAction::FetchPrimaryById(
                    x,
                ) && x@ == id),
                None => if query@.title.len() > 0 && query@.author.len() > 0 {
                    r.0.stage is PrimaryByQuery && (r.1 matches CoverAction::FetchPrimaryByQuery(
                        t,
                        a,
                    ) && t@ == query@.title && a@ == query@.author)
                } else {
                    r.0.stage is Finished && (r.1 matches CoverAction::Finish(c) && c is None)
                },
            },
    {
        let ident: Option<String> = match &query.isbn13 {
            Some(x) => Some(x.clone()),
            None => match &query.isbn {
                Some(x) => Some(x.clone()),
                None => None,
            },
        };
        match ident {
            Some(id) => {
                if id.as_str().unicode_len() > 0 {
                    return (
                        CoverResolver { query, stage: ResolveStage::PrimaryById },
                        CoverAction::FetchPrimaryById(id),
                    );
                }
                if query.title.as_str().unicode_len() > 0 && query.author.as_str().unicode_len()
                    > 0 {
                    let t = query.title.clone();
                    let a = query.author.clone();
                    (
                        CoverResolver { query, stage: ResolveStage::PrimaryByQuery },
                        CoverAction::FetchPrimaryByQuery(t, a),
                    )
                } else {
                    (
                        CoverResolver { query, stage: ResolveStage::Finished },
                        CoverAction::Finish(None),
                    )
                }
            },
            None => {
                if query.title.as_str().unicode_len() > 0 && query.author.as_str().unicode_len()
                    > 0 {
                    let t = query.title.clone();
                    let a = query.author.clone();
                    (
                        CoverResolver { query, stage: ResolveStage::PrimaryByQuery },
                        CoverAction::FetchPrimaryByQuery(t, a),
                    )
                } else {
                    (
                        CoverResolver { query, stage: ResolveStage::Finished },
                        CoverAction::Finish(None),
                    )
                }
            },
        }
    }

    /// Advance the chain with the outcome of the last action.  Any
    /// success ends the resolution with that result; a failure moves
    /// to the next applicable strategy; when none is left the
    /// resolution finishes empty.
    pub fn step(&mut self, ev: ResolveEvent) -> (r: CoverAction)
        requires
            old(self).wf(),
            !(old(self).stage is Finished),
            (old(self).stage is PrimaryById || old(self).stage is PrimaryByQuery) ==> ev is Fetched,
            old(self).stage is FallbackHost ==> ev is Probed,
        ensures
            final(self).query == old(self).query,
            final(self).wf(),
            match old(self).stage {
                ResolveStage::PrimaryById => match ev {
                    ResolveEvent::Fetched(res) => match res {
                        Some(u) => final(self).stage is Finished && (
                        r matches CoverAction::Finish(c) && c matches Some(cu) && cu@ == u@),
                        None => final(self).stage is FallbackHost && (
                        r matches CoverAction::ProbeFallbackHost(p) && p@ == cover_url_spec(
                            resolver_ident(old(self).query@).unwrap(),
                        )),
                    },
                    _ => true,
                },
                ResolveStage::FallbackHost => match ev {
                    ResolveEvent::Probed(valid) => if valid {
                        final(self).stage is Finished && (r matches CoverAction::Finish(c)
                            && c matches Some(cu) && cu@ == cover_url_spec(
                            resolver_ident(old(self).query@).unwrap(),
                        ))
                    } else {
                        if old(self).query@.title.len() > 0 && old(self).query@.author.len() > 0 {
                            final(self).stage is PrimaryByQuery && (
                            r matches CoverAction::FetchPrimaryByQuery(t, a) && t@ == old(
                                self,
                            ).query@.title && a@ == old(self).query@.author)
                        } else {
                            final(self).stage is Finished && (r matches CoverAction::Finish(c)
                                && c is None)
                        }
                    },
                    _ => true,
                },
                ResolveStage::PrimaryByQuery => match ev {
                    ResolveEvent::Fetched(res) => match res {
                        Some(u) => final(self).stage is Finished && (
                        r matches CoverAction::Finish(c) && c matches Some(cu) && cu@ == u@),
                        None => final(self).stage is Finished && (r matches CoverAction::Finish(c)
                            && c is None),
                    },
                    _ => true,
                },
                ResolveStage::Finished => true,
            },
            (r matches CoverAction::ProbeFallbackHost(p)) ==> old(self).stage is PrimaryById && (
            ev matches ResolveEvent::Fetched(o) && o is None),
            (r matches CoverAction::FetchPrimaryByQuery(t, a)) ==> old(
                self,
            ).stage is FallbackHost && ev == ResolveEvent::Probed(false),
            ((ev matches ResolveEvent::Fetched(o) && o is Some) || ev == ResolveEvent::Probed(
                true,
            )) ==> r is Finish && final(self).stage is Finished,
    {
        match self.stage {
            ResolveStage::PrimaryById => {
                match ev {
                    ResolveEvent::Fetched(res) => match res {
                        Some(u) => {
                            self.stage = ResolveStage::Finished;
                            CoverAction::Finish(Some(u))
                        },
                        None => {
                            let id: String = match &self.query.isbn13 {
                                Some(x) => x.clone(),
                                None => match &self.query.isbn {
                                    Some(x) => x.clone(),
                                    None => String::new(),
                                },
                            };
                            self.stage = ResolveStage::FallbackHost;
                            CoverAction::ProbeFallbackHost(openlibrary_cover_url(id.as_str()))
                        },
                    },
                    ResolveEvent::Probed(_) => CoverAction::Finish(None),
                }
            },
            ResolveStage::FallbackHost => {
                match ev {
                    ResolveEvent::Probed(valid) => {
                        if valid {
                            let id: String = match &self.query.isbn13 {
                                Some(x) => x.clone(),
                                None => match &self.query.isbn {
                                    Some(x) => x.clone(),
                                    None => String::new(),
                                },
                            };
                            self.stage = ResolveStage::Finished;
                            CoverAction::Finish(Some(openlibrary_cover_url(id.as_str())))
                        } else {
                            if self.query.title.as_str().unicode_len() > 0
                                && self.query.author.as_str().unicode_len() > 0 {
                                let t = self.query.title.clone();
                                let a = self.query.author.clone();
                                self.stage = ResolveStage::PrimaryByQuery;
                                CoverAction::FetchPrimaryByQuery(t, a)
                            } else {
                                self.stage = ResolveStage::Finished;
                                CoverAction::Finish(None)
                            }
                        }
                    },
                    ResolveEvent::Fetched(_) => CoverAction::Finish(None),
                }
            },
            ResolveStage::PrimaryByQuery => {
                match ev {
                    ResolveEvent::Fetched(res) => {
                        self.stage = ResolveStage::Finished;
                        match res {
                            Some(u) => CoverAction::Finish(Some(u)),
                            None => CoverAction::Finish(None),
                        }
                    },
                    ResolveEvent::Probed(_) => CoverAction::Finish(None),
                }
            },
            ResolveStage::Finished => CoverAction::Finish(None),
        }
    }
}

/// A record needs the repair sweep when its cover URL is absent or
/// came from the fallback host, the one source known to emit
/// placeholders.
pub open spec fn needs_repair_spec(cover: Option<Seq<char>>) -> bool {
    match cover {
        None => true,
        Some(u) => has_substring(u, "openlibrary"@),
    }
}

/// Select a record for the repair sweep.
pub fn needs_cover_repair(cover_url: &Option<String>) -> (r: bool)
    ensures
        r == needs_repair_spec(opt_text_view(*cover_url)),
{
    match cover_url {
        None => true,
        Some(u) => str_contains(u.as_str(), "openlibrary"),
    }
}

/// The repair sweep's first decision for one record.
pub enum RepairAction {
    /// Re-validate this existing fallback-host URL before anything
    /// else; feed the verdict to `repair_after_probe`.
    ProbeExisting(String),
    /// Run the full fallback chain.
    RunResolver,
}

/// What to do after re-validating an existing fallback-host URL.
pub enum RepairFollowUp {
    /// The existing cover is real: leave the record untouched.
    KeepExisting,
    /// Run the full fallback chain.
    Resolve,
}

/// Decide the first step for one repair candidate: an existing
/// fallback-host URL is re-validated before any re-fetch; anything
/// else goes straight to the resolver chain.
pub fn repair_first_action(cover_url: &Option<String>) -> (r: RepairAction)
    ensures
        match opt_text_view(*cover_url) {
            Some(u) => if has_substring(u, "openlibrary"@) {
                r matches RepairAction::ProbeExisting(p) && p@ == u
            } else {
                r is RunResolver
            },
            None => r is RunResolver,
        },
{
    match cover_url {
        Some(u) => {
            if str_contains(u.as_str(), "openlibrary") {
                RepairAction::ProbeExisting(u.clone())
            } else {
                RepairAction::RunResolver
            }
        },
        None => RepairAction::RunResolver,
    }
}

/// Decide what follows the re-validation probe: a still-valid cover
/// is kept at no further network cost; otherwise the chain runs.
pub fn repair_after_probe(still_valid: bool) -> (r: RepairFollowUp)
    ensures
        still_valid ==> r is KeepExisting,
        !still_valid ==> r is Resolve,
{
    if still_valid {
        RepairFollowUp::KeepExisting
    } else {
        RepairFollowUp::Resolve
    }
}

/// What the resolver names as a result of URL-encoding.
pub uninterp spec fn url_encoded_of(s: Seq<char>) -> Seq<char>;

/// Relies on urlencoding::encode: percent-encodes every byte except
/// ASCII alphanumerics and `-`, `_`, `.`, `~`; the result depends on
/// the input alone, and an empty input stays empty.
#[verifier::external_body]
fn url_encode(s: &str) -> (r: String)
    ensures
        r@ == url_encoded_of(s@),
        s@.len() == 0 ==> r@.len() == 0,
{
    urlencoding::encode(s).into_owned()
}

/// The metadata catalog's identifier-lookup URL.
pub open spec fn primary_id_url_spec(id: Seq<char>) -> Seq<char> {
    "https://www.googleapis.com/books/v1/volumes?q=isbn:"@ + id + "&maxResults=1"@
}

/// Build the metadata catalog's identifier-lookup URL.
pub fn primary_id_url(id: &str) -> (r: String)
    ensures
        r@ == primary_id_url_spec(id@),
{
    let mut s = String::from_str("https://www.googleapis.com/books/v1/volumes?q=isbn:");
    s.append(id);
    s.append("&maxResults=1");
    s
}

/// The combined title-and-author search expression.
pub open spec fn title_author_query_spec(title: Seq<char>, author: Seq<char>) -> Seq<char> {
    "intitle:"@ + title + "+inauthor:"@ + author
}

/// The metadata catalog's free-text-search URL, with the search
/// expression URL-encoded.
pub open spec fn primary_query_url_spec(title: Seq<char>, author: Seq<char>) -> Seq<char> {
    "https://www.googleapis.com/books/v1/volumes?q="@ + url_encoded_of(
        title_author_query_spec(title, author),
    ) + "&maxResults=1"@
}

/// Build the metadata catalog's title-and-author search URL.
pub fn primary_query_url(title: &str, author: &str) -> (r: String)
    ensures
        r@ == primary_query_url_spec(title@, author@),
{
    let mut q = String::from_str("intitle:");
    q.append(title);
    q.append("+inauthor:");
    q.append(author);
    let enc = url_encode(q.as_str());
    let mut s = String::from_str("https://www.googleapis.com/books/v1/volumes?q=");
    s.append(enc.as_str());
    s.append("&maxResults=1");
    s
}

/// The identifier-data lookup URL of the secondary catalog service.
pub open spec fn isbn_lookup_url_spec(id: Seq<char>) -> Seq<char> {
    "https://openlibrary.org/api/books?bibkeys=ISBN:"@ + id + "&format=json&jscmd=data"@
}

/// Build the secondary catalog's identifier-data lookup URL.
pub fn isbn_lookup_url(id: &str) -> (r: String)
    ensures
        r@ == isbn_lookup_url_spec(id@),
{
    let mut s = String::from_str("https://openlibrary.org/api/books?bibkeys=ISBN:");
    s.append(id);
    s.append("&format=json&jscmd=data");
    s
}

/// The key under which the secondary catalog returns a record.
pub open spec fn isbn_key_spec(id: Seq<char>) -> Seq<char> {
    "ISBN:"@ + id
}

/// Build the response key for an identifier-data lookup.
pub fn isbn_lookup_key(id: &str) -> (r: String)
    ensures
        r@ == isbn_key_spec(id@),
{
    let mut s = String::from_str("ISBN:");
    s.append(id);
    s
}

} // verus!
