//! The AudiobookDB metadata source (audiobookdb.org v1 API).
//!
//! Audible ASINs are resolved through the external lookup endpoint, internal
//! AudiobookDB ids through the book endpoint, and anything else falls back to
//! search, where only a hit whose id matches exactly is used. Chapters come
//! from a release: the one the ASIN lookup links, else the book's first.

use vstd::prelude::*;

use crate::api::audible::{ascii_asin, is_ascii_asin, year_from_date, year_of_date};
use crate::duration::Duration;
use crate::metadata::{chapter_views, opt_view, BookMetadata, BookMetadataView, Chapter, ChapterView};
use crate::api::{source_client_settings, source_settings, ClientSettings};
use crate::outside_types::{build_http_client_with_agent, json_error_text, reqwest_error_text};
use crate::text::{
    byte_len, byte_len_capped, chars_of, dec, eq_ignore_ascii_case, eq_ignore_ascii_case_exec,
    extend_chars, extend_str, parse_u64, parse_unsigned, string_of, string_views, trim, trim_chars,
    trim_str,
};

verus! {

/// Default API base URL for AudiobookDB.
pub const DEFAULT_API_URL: &'static str = "https://audiobookdb.org/api";

/// Upper bound, in seconds, for a `Retry-After` wait.
pub const RETRY_AFTER_MAX_SECS: u64 = 60;

/// The `User-Agent` the client sends.
pub const USER_AGENT: &'static str = "m4b-merge/1.0.0 (https://github.com/djdembeck/m4b-merge)";

/// The relations requested with a book.
pub const BOOK_INCLUDE: &'static str = "people,releases,series,genres,images";

/// Errors of the AudiobookDB source.
#[derive(Debug)]
pub enum AudiobookdbError {
    Network(reqwest::Error),
    ApiError { status: u16, message: String },
    NotFound(String),
    RateLimited,
    Timeout,
    IdNotFound(String),
    Connection(String),
    Serialization(serde_json::Error),
}

/// Whether `s` is the message of `e`; the text of a network or
/// serialization error is the outside crate's own.
pub open spec fn audiobookdb_message(e: AudiobookdbError, s: Seq<char>) -> bool {
    &&& (e matches AudiobookdbError::Network(_) ==>
        exists|t: Seq<char>| s == "network error: "@ + t)
    &&& (e matches AudiobookdbError::ApiError { status, message } ==>
        s == "API error "@ + dec(status as nat) + ": "@ + message@)
    &&& (e matches AudiobookdbError::NotFound(id) ==>
        s == "not found: "@ + id@)
    &&& (e is RateLimited ==>
        s == "rate limited"@)
    &&& (e is Timeout ==>
        s == "timeout"@)
    &&& (e matches AudiobookdbError::IdNotFound(id) ==>
        s == "no book found for ID: "@ + id@)
    &&& (e matches AudiobookdbError::Connection(m) ==>
        s == "connection error: "@ + m@)
    &&& (e matches AudiobookdbError::Serialization(_) ==>
        exists|t: Seq<char>| s == "serialization error: "@ + t)
}

impl AudiobookdbError {
    /// The error message.
    pub fn to_string(&self) -> (s: String)
        ensures
            audiobookdb_message(*self, s@),
    {
        let mut out: Vec<char> = Vec::new();
        match self {
            AudiobookdbError::Network(e) => {
                extend_str(&mut out, "network error: ");
                let t = reqwest_error_text(e);
                extend_str(&mut out, t.as_str());
            },
            AudiobookdbError::ApiError { status, message } => {
                extend_str(&mut out, "API error ");
                let d = crate::text::dec_exec(*status as u128);
                extend_chars(&mut out, d.as_slice());
                extend_str(&mut out, ": ");
                extend_str(&mut out, message.as_str());
            },
            AudiobookdbError::NotFound(id) => {
                extend_str(&mut out, "not found: ");
                extend_str(&mut out, id.as_str());
            },
            AudiobookdbError::RateLimited => {
                extend_str(&mut out, "rate limited");
            },
            AudiobookdbError::Timeout => {
                extend_str(&mut out, "timeout");
            },
            AudiobookdbError::IdNotFound(id) => {
                extend_str(&mut out, "no book found for ID: ");
                extend_str(&mut out, id.as_str());
            },
            AudiobookdbError::Connection(m) => {
                extend_str(&mut out, "connection error: ");
                extend_str(&mut out, m.as_str());
            },
            AudiobookdbError::Serialization(e) => {
                extend_str(&mut out, "serialization error: ");
                let t = json_error_text(e);
                extend_str(&mut out, t.as_str());
            },
        }
        string_of(out.as_slice())
    }
}

/// Whether an AudiobookDB error is worth retrying: network and connection
/// failures, rate limiting, timeouts and server errors (5xx).
pub open spec fn audiobookdb_transient(e: AudiobookdbError) -> bool {
    match e {
        AudiobookdbError::Network(_) => true,
        AudiobookdbError::Connection(_) => true,
        AudiobookdbError::RateLimited => true,
        AudiobookdbError::Timeout => true,
        AudiobookdbError::ApiError { status, .. } => status >= 500,
        _ => false,
    }
}

/// The first endpoint to try for an identifier.
#[derive(Debug, Clone, Copy, PartialEq, Eq, Structural)]
pub enum BookEndpoint {
    /// `GET /audiobooks/external/audible/{asin}`: ASIN-shaped identifiers.
    ExternalAsin,
    /// `GET /books/{id}`: everything else.
    InternalBook,
}

/// What to do when the first lookup finds nothing.
#[derive(Debug, Clone, Copy, PartialEq, Eq, Structural)]
pub enum NotFoundFallback {
    /// Retry the id as an internal book id.
    InternalBook,
    /// Search for it and use an exact-id hit, if any.
    Search,
    /// Give up (the id is too short to search).
    GiveUp,
}

/// The endpoint an identifier is looked up at first.
pub open spec fn endpoint_for(id: Seq<char>) -> BookEndpoint {
    if ascii_asin(id) {
        BookEndpoint::ExternalAsin
    } else {
        BookEndpoint::InternalBook
    }
}

/// The fallback after the first lookup finds nothing: an ASIN is retried as
/// an internal id; other ids are searched, unless shorter than the three
/// bytes search needs.
pub open spec fn fallback_for(id: Seq<char>, initial: BookEndpoint) -> NotFoundFallback {
    match initial {
        BookEndpoint::ExternalAsin => NotFoundFallback::InternalBook,
        BookEndpoint::InternalBook => if byte_len(id) < 3 {
            NotFoundFallback::GiveUp
        } else {
            NotFoundFallback::Search
        },
    }
}

/// The delay before retry number `attempt + 1`, in nanoseconds, or `None`
/// when the error is not retried: permanent errors and the last attempt give
/// up; otherwise the server's `Retry-After` wait when given, else
/// `min((attempt + 1) * 1000, 8192)` milliseconds.
pub open spec fn retry_delay(attempt: nat, transient: bool, retry_after: Option<nat>) -> Option<nat> {
    if !transient || attempt >= 3 {
        None
    } else {
        match retry_after {
            Some(d) => Some(d),
            None => Some(
                (if (attempt + 1) * 1000 <= 8192 {
                    (attempt + 1) * 1000
                } else {
                    8192
                }) * 1_000_000,
            ),
        }
    }
}

/// Whether `s` is the empty text.
pub open spec fn nonempty(o: Option<Seq<char>>) -> Option<Seq<char>> {
    match o {
        Some(s) => if s.len() > 0 {
            Some(s)
        } else {
            None
        },
        None => None,
    }
}

/// A search hit.
#[derive(Debug, Clone, PartialEq)]
pub struct SearchDocumentBook {
    pub id: String,
}

/// The index of the first hit whose id is `id`.
pub open spec fn first_hit(hits: Seq<SearchDocumentBook>, id: Seq<char>) -> Option<int>
    decreases hits.len(),
{
    if hits.len() == 0 {
        None
    } else {
        match first_hit(hits.drop_last(), id) {
            Some(k) => Some(k),
            None => if hits.last().id@ == id {
                Some(hits.len() - 1)
            } else {
                None
            },
        }
    }
}

/// A reference to a release of a book.
#[derive(Debug, Clone)]
pub struct AudiobookdbReleaseRef {
    pub id: String,
}

/// A role name.
#[derive(Debug, Clone)]
pub struct AudiobookdbRoleRef {
    pub name: String,
}

/// A person's name.
#[derive(Debug, Clone)]
pub struct AudiobookdbPersonRef {
    pub name: String,
}

/// A person with a role in a book or release.
#[derive(Debug, Clone)]
pub struct AudiobookdbPersonRelation {
    pub role: AudiobookdbRoleRef,
    pub person: AudiobookdbPersonRef,
}

/// A chapter of a release, offsets in milliseconds.
#[derive(Debug, Clone)]
pub struct AudiobookdbChapter {
    pub title: String,
    pub ordinal: i32,
    pub start_offset_ms: i64,
    pub length_ms: i64,
}

/// The chapter list of a release.
#[derive(Debug, Clone)]
pub struct AudiobookdbChapterDetail {
    pub chapters: Vec<AudiobookdbChapter>,
}

/// A release: its chapters and people.
#[derive(Debug, Clone)]
pub struct AudiobookdbRelease {
    pub chapter_detail: Option<AudiobookdbChapterDetail>,
    pub people: Vec<AudiobookdbPersonRelation>,
}

/// An image: its storage key and, when known, its full-resolution source.
#[derive(Debug, Clone)]
pub struct AudiobookdbImage {
    pub url: String,
    pub source_url: Option<String>,
}

/// A title (of a genre).
#[derive(Debug, Clone)]
pub struct AudiobookdbIdTitle {
    pub title: String,
}

/// A position in a series: a value, or a label.
#[derive(Debug, Clone)]
pub struct AudiobookdbSeriesPosition {
    pub value: Option<String>,
    pub label: String,
}

/// A series' title.
#[derive(Debug, Clone)]
pub struct AudiobookdbSeriesRef {
    pub title: String,
}

/// A book's place in a series.
#[derive(Debug, Clone)]
pub struct AudiobookdbBookInSeries {
    pub position: AudiobookdbSeriesPosition,
    pub series: AudiobookdbSeriesRef,
}

/// An AudiobookDB book record.
#[derive(Debug, Clone)]
pub struct AudiobookdbBook {
    pub id: Option<String>,
    pub title: String,
    pub subtitle: Option<String>,
    pub disambiguation: Option<String>,
    pub description: Option<String>,
    pub copyright: Option<i32>,
    pub originally_published_at: Option<String>,
    pub images: Vec<AudiobookdbImage>,
    pub cover_image: Option<AudiobookdbImage>,
    pub people: Vec<AudiobookdbPersonRelation>,
    pub releases: Vec<AudiobookdbReleaseRef>,
    pub series: Vec<AudiobookdbBookInSeries>,
    pub genres: Vec<AudiobookdbIdTitle>,
    pub matched_release_id: Option<String>,
}

/// The release to read chapters from: the matched release when given and
/// not empty, else the book's first release.
pub open spec fn release_choice(book: AudiobookdbBook, matched: Option<Seq<char>>) -> Option<Seq<char>> {
    match nonempty(matched) {
        Some(m) => Some(m),
        None => if book.releases@.len() > 0 {
            Some(book.releases@[0].id@)
        } else {
            None
        },
    }
}

/// The URL of the external lookup of an ASIN (trimmed).
pub open spec fn external_url_of(base: Seq<char>, asin: Seq<char>) -> Seq<char> {
    base + "/audiobooks/external/audible/"@ + trim(asin)
}

/// The URL of a book, with its relations.
pub open spec fn book_url_of(base: Seq<char>, id: Seq<char>) -> Seq<char> {
    base + "/books/"@ + id + "?include="@ + BOOK_INCLUDE@
}

/// The URL of a release.
pub open spec fn release_url_of(base: Seq<char>, id: Seq<char>) -> Seq<char> {
    base + "/releases/"@ + id
}

/// Client for the AudiobookDB API.
#[derive(Debug)]
pub struct AudiobookdbClient {
    client: reqwest::Client,
    settings: ClientSettings,
    user_agent: String,
    base_url: String,
}

impl AudiobookdbClient {
    /// A client for the default API URL.
    pub fn new() -> (r: Result<AudiobookdbClient, AudiobookdbError>)
        ensures
            r matches Ok(c) ==> c.base_url_text() == DEFAULT_API_URL@ && c.settings_of()
                == source_client_settings() && c.user_agent_of() == USER_AGENT@,
            r matches Err(e) ==> e is Connection,
    {
        AudiobookdbClient::with_base_url(DEFAULT_API_URL)
    }

    /// A client for `base_url`.
    pub fn with_base_url(base_url: &str) -> (r: Result<AudiobookdbClient, AudiobookdbError>)
        ensures
            r matches Ok(c) ==> c.base_url_text() == base_url@ && c.settings_of()
                == source_client_settings() && c.user_agent_of() == USER_AGENT@,
            r matches Err(e) ==> e is Connection,
    {
        let (built, settings, user_agent) = build_http_client_with_agent(
            source_settings(),
            USER_AGENT.to_owned(),
        );
        match built {
            Ok(client) => Ok(AudiobookdbClient { client, settings, user_agent, base_url: base_url.to_owned() }),
            Err(e) => Err(AudiobookdbError::Connection(reqwest_error_text(&e))),
        }
    }

    /// The settings the HTTP client was built with.
    pub closed spec fn settings_of(&self) -> ClientSettings {
        self.settings
    }

    /// The `User-Agent` the HTTP client sends.
    pub closed spec fn user_agent_of(&self) -> Seq<char> {
        self.user_agent@
    }

    /// The settings the HTTP client was built with.
    pub fn settings(&self) -> (s: ClientSettings)
        ensures
            s == self.settings_of(),
    {
        self.settings
    }

    /// The `User-Agent` the HTTP client sends.
    pub fn user_agent(&self) -> (s: &str)
        ensures
            s@ == self.user_agent_of(),
    {
        self.user_agent.as_str()
    }

    /// The API base URL, as text.
    pub closed spec fn base_url_text(&self) -> Seq<char> {
        self.base_url@
    }

    /// The API base URL.
    pub fn base_url(&self) -> (s: &str)
        ensures
            s@ == self.base_url_text(),
    {
        self.base_url.as_str()
    }

    /// The HTTP client requests are sent with.
    pub closed spec fn client_of(&self) -> reqwest::Client {
        self.client
    }

    /// The HTTP client.
    pub fn http(&self) -> (c: &reqwest::Client)
        ensures
            *c == self.client_of(),
    {
        &self.client
    }

    /// Whether an error is transient and should be retried.
    pub fn is_transient_error(error: &AudiobookdbError) -> (b: bool)
        ensures
            b == audiobookdb_transient(*error),
    {
        match error {
            AudiobookdbError::Network(_) => true,
            AudiobookdbError::Connection(_) => true,
            AudiobookdbError::RateLimited => true,
            AudiobookdbError::Timeout => true,
            AudiobookdbError::ApiError { status, .. } => *status >= 500,
            _ => false,
        }
    }

    /// Whether `id` looks like an Audible ASIN: ten ASCII letters or digits.
    pub fn looks_like_asin(id: &str) -> (b: bool)
        ensures
            b == ascii_asin(id@),
    {
        is_ascii_asin(id)
    }

    /// The error for a response that is not 200 OK: 404 not found (for
    /// `not_found_id`), 408 timeout, 429 rate limited, anything else an API
    /// error carrying the status and body.
    pub fn http_error(status: u16, body: String, not_found_id: &str) -> (e: AudiobookdbError)
        ensures
            status == 404 ==> (e matches AudiobookdbError::NotFound(id) && id@ == not_found_id@),
            status == 408 ==> e is Timeout,
            status == 429 ==> e is RateLimited,
            status != 404 && status != 408 && status != 429 ==> (
            e matches AudiobookdbError::ApiError { status: st, message } && st == status
                && message@ == body@),
    {
        if status == 404 {
            AudiobookdbError::NotFound(not_found_id.to_owned())
        } else if status == 408 {
            AudiobookdbError::Timeout
        } else if status == 429 {
            AudiobookdbError::RateLimited
        } else {
            AudiobookdbError::ApiError { status, message: body }
        }
    }

    /// The endpoint to look `id` up at first.
    pub fn resolve_endpoint(id: &str) -> (e: BookEndpoint)
        ensures
            e == endpoint_for(id@),
    {
        if AudiobookdbClient::looks_like_asin(id) {
            BookEndpoint::ExternalAsin
        } else {
            BookEndpoint::InternalBook
        }
    }

    /// The fallback after the lookup at `initial` found nothing.
    pub fn not_found_fallback(id: &str, initial: BookEndpoint) -> (f: NotFoundFallback)
        ensures
            f == fallback_for(id@, initial),
    {
        match initial {
            BookEndpoint::ExternalAsin => NotFoundFallback::InternalBook,
            BookEndpoint::InternalBook => {
                let c = chars_of(id);
                if byte_len_capped(c.as_slice(), 3) < 3 {
                    NotFoundFallback::GiveUp
                } else {
                    NotFoundFallback::Search
                }
            },
        }
    }

    /// The release to read chapters from.
    pub fn release_id_for(book: &AudiobookdbBook, matched_release_id: Option<&str>) -> (r: Option<
        String,
    >)
        ensures
            opt_view(r) == release_choice(
                *book,
                match matched_release_id {
                    Some(m) => Some(m@),
                    None => None,
                },
            ),
    {
        match matched_release_id {
            Some(m) => {
                let mc = chars_of(m);
                if mc.len() > 0 {
                    return Some(m.to_owned());
                }
            },
            None => {},
        }
        if book.releases.len() > 0 {
            Some(book.releases[0].id.clone())
        } else {
            None
        }
    }

    /// The search hit for `id`: the first whose id is exactly `id`.
    pub fn select_search_hit<'a>(id: &str, hits: &'a [SearchDocumentBook]) -> (r: Option<
        &'a SearchDocumentBook,
    >)
        ensures
            match first_hit(hits@, id@) {
                Some(k) => r == Some(&hits@[k]),
                None => r is None,
            },
    {
        let target = id.to_owned();
        let mut i: usize = 0;
        assert(hits@.take(0) =~= Seq::<SearchDocumentBook>::empty());
        while i < hits.len()
            invariant
                i <= hits@.len(),
                target@ == id@,
                first_hit(hits@.take(i as int), id@) is None,
            decreases hits.len() - i,
        {
            assert(hits@.take(i + 1).drop_last() =~= hits@.take(i as int));
            if hits[i].id == target {
                proof {
                    lemma_first_hit_prefix(hits@, id@, i as int);
                }
                return Some(&hits[i]);
            }
            i = i + 1;
        }
        assert(hits@.take(hits.len() as int) =~= hits@);
        None
    }

    /// The URL of the external lookup of `asin`.
    pub fn external_url(&self, asin: &str) -> (s: String)
        ensures
            s@ == external_url_of(self.base_url_text(), asin@),
    {
        let mut out: Vec<char> = Vec::new();
        extend_str(&mut out, self.base_url.as_str());
        extend_str(&mut out, "/audiobooks/external/audible/");
        let t = trim_str(asin);
        extend_str(&mut out, t.as_str());
        string_of(out.as_slice())
    }

    /// The URL of book `id`.
    pub fn book_url(&self, id: &str) -> (s: String)
        ensures
            s@ == book_url_of(self.base_url_text(), id@),
    {
        let mut out: Vec<char> = Vec::new();
        extend_str(&mut out, self.base_url.as_str());
        extend_str(&mut out, "/books/");
        extend_str(&mut out, id);
        extend_str(&mut out, "?include=");
        extend_str(&mut out, BOOK_INCLUDE);
        string_of(out.as_slice())
    }

    /// The URL of release `id`.
    pub fn release_url(&self, id: &str) -> (s: String)
        ensures
            s@ == release_url_of(self.base_url_text(), id@),
    {
        let mut out: Vec<char> = Vec::new();
        extend_str(&mut out, self.base_url.as_str());
        extend_str(&mut out, "/releases/");
        extend_str(&mut out, id);
        string_of(out.as_slice())
    }

    /// The URL of the search endpoint.
    pub fn search_url(&self) -> (s: String)
        ensures
            s@ == self.base_url_text() + "/search"@,
    {
        let mut out: Vec<char> = Vec::new();
        extend_str(&mut out, self.base_url.as_str());
        extend_str(&mut out, "/search");
        string_of(out.as_slice())
    }

    /// The delay before the next attempt after attempt number `attempt`
    /// (from 0) failed with `error`, or `None` when the error is returned:
    /// see `retry_delay`. A random jitter is added by the caller.
    pub fn next_retry_delay(attempt: usize, error: &AudiobookdbError, retry_after: Option<Duration>) -> (r:
        Option<Duration>)
        ensures
            match r {
                Some(d) => retry_delay(
                    attempt as nat,
                    audiobookdb_transient(*error),
                    match retry_after {
                        Some(w) => Some(w@),
                        None => None,
                    },
                ) == Some(d@),
                None => retry_delay(
                    attempt as nat,
                    audiobookdb_transient(*error),
                    match retry_after {
                        Some(w) => Some(w@),
                        None => None,
                    },
                ) is None,
            },
    {
        if !AudiobookdbClient::is_transient_error(error) || attempt >= crate::api::MAX_RETRIES {
            return None;
        }
        match retry_after {
            Some(w) => Some(w),
            None => {
                let ms: u64 = if attempt < 8 {
                    ((attempt + 1) as u64) * crate::api::BACKOFF_BASE_MS
                } else {
                    8192
                };
                let capped: u64 = if ms <= 8192 {
                    ms
                } else {
                    8192
                };
                Some(Duration::from_millis(capped))
            },
        }
    }
}

/// The first hit of a prefix with none is found at `i`.
proof fn lemma_first_hit_prefix(hits: Seq<SearchDocumentBook>, id: Seq<char>, i: int)
    requires
        0 <= i < hits.len(),
        first_hit(hits.take(i), id) is None,
        hits[i].id@ == id,
    ensures
        first_hit(hits, id) == Some(i),
    decreases hits.len(),
{
    if i < hits.len() - 1 {
        assert(hits.drop_last().take(i) =~= hits.take(i));
        lemma_first_hit_prefix(hits.drop_last(), id, i);
    } else {
        assert(hits.drop_last() =~= hits.take(i));
    }
}

/// The names of the people of `ps` whose role is `role`, ignoring ASCII
/// case, in order.
pub open spec fn role_names(ps: Seq<AudiobookdbPersonRelation>, role: Seq<char>) -> Seq<Seq<char>>
    decreases ps.len(),
{
    if ps.len() == 0 {
        seq![]
    } else {
        let r = role_names(ps.drop_last(), role);
        if eq_ignore_ascii_case(ps.last().role.name@, role) {
            r.push(ps.last().person.name@)
        } else {
            r
        }
    }
}

/// `acc` followed by the names of `names` it does not hold yet, each name
/// added at most once.
pub open spec fn add_new_names(acc: Seq<Seq<char>>, names: Seq<Seq<char>>) -> Seq<Seq<char>>
    decreases names.len(),
{
    if names.len() == 0 {
        acc
    } else {
        let a = add_new_names(acc, names.drop_last());
        if a.contains(names.last()) {
            a
        } else {
            a.push(names.last())
        }
    }
}

/// The cover URL of an image: its full-resolution source when known and not
/// empty, otherwise the 768px derivative `<url>/large.jpg`.
pub open spec fn cover_url_text(img: AudiobookdbImage) -> Seq<char> {
    match nonempty(opt_view(img.source_url)) {
        Some(s) => s,
        None => img.url@ + "/large.jpg"@,
    }
}

/// The chapters with neither a negative offset nor a negative length.
pub open spec fn kept_chapters(cs: Seq<AudiobookdbChapter>) -> Seq<AudiobookdbChapter>
    decreases cs.len(),
{
    if cs.len() == 0 {
        seq![]
    } else {
        let r = kept_chapters(cs.drop_last());
        if cs.last().start_offset_ms >= 0 && cs.last().length_ms >= 0 {
            r.push(cs.last())
        } else {
            r
        }
    }
}

/// One step of a stable insertion sort by ordinal.
pub open spec fn insert_by_ordinal(s: Seq<AudiobookdbChapter>, x: AudiobookdbChapter) -> Seq<
    AudiobookdbChapter,
>
    decreases s.len(),
{
    if s.len() == 0 {
        seq![x]
    } else if s.last().ordinal <= x.ordinal {
        s.push(x)
    } else {
        insert_by_ordinal(s.drop_last(), x).push(s.last())
    }
}

/// Chapters stably sorted by ordinal.
pub open spec fn sort_by_ordinal(s: Seq<AudiobookdbChapter>) -> Seq<AudiobookdbChapter>
    decreases s.len(),
{
    if s.len() == 0 {
        seq![]
    } else {
        insert_by_ordinal(sort_by_ordinal(s.drop_last()), s.last())
    }
}

/// A release chapter as a chapter, milliseconds made nanoseconds.
pub open spec fn chapter_of(c: AudiobookdbChapter) -> ChapterView {
    ChapterView {
        title: c.title@,
        start: (c.start_offset_ms as nat) * 1_000_000,
        duration: (c.length_ms as nat) * 1_000_000,
    }
}

/// The chapters of a release: those without negative values, sorted by
/// ordinal.
pub open spec fn release_chapters(r: Option<AudiobookdbRelease>) -> Seq<ChapterView> {
    match r {
        Some(rel) => match rel.chapter_detail {
            Some(cd) => sort_by_ordinal(kept_chapters(cd.chapters@)).map_values(
                |c: AudiobookdbChapter| chapter_of(c),
            ),
            None => seq![],
        },
        None => seq![],
    }
}

/// The position of a book in a series: the value when given, else the
/// label; nothing when that is empty.
pub open spec fn series_position_of(s: AudiobookdbBookInSeries) -> Option<Seq<char>> {
    nonempty(
        Some(
            match s.position.value {
                Some(v) => v@,
                None => s.position.label@,
            },
        ),
    )
}

/// The metadata an AudiobookDB book (and the release chapters are read
/// from) describes. The id is the book's own when it has a non-empty one,
/// else `caller_id`.
pub open spec fn audiobookdb_metadata(
    caller_id: Seq<char>,
    book: AudiobookdbBook,
    release: Option<AudiobookdbRelease>,
) -> BookMetadataView {
    BookMetadataView {
        asin: match nonempty(opt_view(book.id)) {
            Some(i) => i,
            None => caller_id,
        },
        title: book.title@,
        subtitle: match nonempty(opt_view(book.subtitle)) {
            Some(s) => Some(s),
            None => nonempty(opt_view(book.disambiguation)),
        },
        authors: role_names(book.people@, "author"@),
        narrators: add_new_names(
            match release {
                Some(r) => role_names(r.people@, "narrator"@),
                None => seq![],
            },
            role_names(book.people@, "narrator"@),
        ),
        series_name: if book.series@.len() > 0 {
            Some(book.series@[0].series.title@)
        } else {
            None
        },
        series_position: if book.series@.len() > 0 {
            series_position_of(book.series@[0])
        } else {
            None
        },
        description: match book.description {
            Some(d) => d@,
            None => seq![],
        },
        genres: book.genres@.map_values(|g: AudiobookdbIdTitle| g.title@),
        year: match book.copyright {
            Some(c) => Some(c as u32),
            None => match book.originally_published_at {
                Some(d) => year_of_date(d@),
                None => None,
            },
        },
        cover_url: match book.cover_image {
            Some(img) => Some(cover_url_text(img)),
            None => if book.images@.len() > 0 {
                Some(cover_url_text(book.images@[0]))
            } else {
                None
            },
        },
        chapters: release_chapters(release),
    }
}

impl AudiobookdbChapter {
    /// A copy of this chapter.
    pub fn copy(&self) -> (c: AudiobookdbChapter)
        ensures
            c == *self,
    {
        AudiobookdbChapter {
            title: self.title.clone(),
            ordinal: self.ordinal,
            start_offset_ms: self.start_offset_ms,
            length_ms: self.length_ms,
        }
    }
}

/// The text of an optional string when it is not empty.
fn nonempty_exec(o: &Option<String>) -> (r: Option<String>)
    ensures
        opt_view(r) == nonempty(opt_view(*o)),
{
    match o {
        Some(s) => {
            let c = chars_of(s.as_str());
            if c.len() > 0 {
                Some(s.clone())
            } else {
                None
            }
        },
        None => None,
    }
}

/// The cover URL of an image.
pub fn cover_url_of(img: &AudiobookdbImage) -> (s: String)
    ensures
        s@ == cover_url_text(*img),
{
    match nonempty_exec(&img.source_url) {
        Some(s) => s,
        None => {
            let mut out: Vec<char> = Vec::new();
            extend_str(&mut out, img.url.as_str());
            extend_str(&mut out, "/large.jpg");
            string_of(out.as_slice())
        },
    }
}

/// The names of the people of `ps` with role `role`.
fn role_names_exec(ps: &Vec<AudiobookdbPersonRelation>, role: &str) -> (r: Vec<String>)
    ensures
        string_views(r@) == role_names(ps@, role@),
{
    let rc = chars_of(role);
    let mut r: Vec<String> = Vec::new();
    let mut i: usize = 0;
    assert(ps@.take(0) =~= Seq::<AudiobookdbPersonRelation>::empty());
    while i < ps.len()
        invariant
            i <= ps@.len(),
            rc@ == role@,
            string_views(r@) == role_names(ps@.take(i as int), role@),
        decreases ps.len() - i,
    {
        assert(ps@.take(i + 1).drop_last() =~= ps@.take(i as int));
        let p = &ps[i];
        let nc = chars_of(p.role.name.as_str());
        if eq_ignore_ascii_case_exec(nc.as_slice(), rc.as_slice()) {
            let ghost before = r@;
            r.push(p.person.name.clone());
            assert(string_views(r@) =~= string_views(before).push(p.person.name@));
        }
        i = i + 1;
    }
    assert(ps@.take(ps.len() as int) =~= ps@);
    r
}

/// Whether `v` holds a string equal to `s`.
fn holds_name(v: &Vec<String>, s: &String) -> (b: bool)
    ensures
        b == string_views(v@).contains(s@),
{
    let mut i: usize = 0;
    while i < v.len()
        invariant
            i <= v@.len(),
            forall|k: int| 0 <= k < i ==> #[trigger] v@[k]@ != s@,
        decreases v.len() - i,
    {
        if v[i] == *s {
            assert(string_views(v@)[i as int] == s@);
            return true;
        }
        i = i + 1;
    }
    proof {
        if string_views(v@).contains(s@) {
            let k = choose|k: int| 0 <= k < v@.len() && string_views(v@)[k] == s@;
            assert(v@[k]@ == s@);
        }
    }
    false
}

/// Adds to `acc` the names of `names` it does not hold yet.
fn add_new_names_exec(acc: Vec<String>, names: &Vec<String>) -> (r: Vec<String>)
    ensures
        string_views(r@) == add_new_names(string_views(acc@), string_views(names@)),
{
    let mut r = acc;
    let ghost a0 = string_views(r@);
    let mut i: usize = 0;
    assert(string_views(names@).take(0) =~= Seq::<Seq<char>>::empty());
    while i < names.len()
        invariant
            i <= names@.len(),
            string_views(r@) == add_new_names(a0, string_views(names@).take(i as int)),
        decreases names.len() - i,
    {
        assert(string_views(names@).take(i + 1).drop_last() =~= string_views(names@).take(i as int));
        assert(string_views(names@).take(i + 1).last() == names@[i as int]@);
        if !holds_name(&r, &names[i]) {
            let ghost before = r@;
            r.push(names[i].clone());
            assert(string_views(r@) =~= string_views(before).push(names@[i as int]@));
        }
        i = i + 1;
    }
    assert(string_views(names@).take(names.len() as int) =~= string_views(names@));
    r
}

/// The chapters without negative values, copied.
fn kept_chapters_exec(cs: &Vec<AudiobookdbChapter>) -> (r: Vec<AudiobookdbChapter>)
    ensures
        r@ == kept_chapters(cs@),
{
    let mut r: Vec<AudiobookdbChapter> = Vec::new();
    let mut i: usize = 0;
    assert(cs@.take(0) =~= Seq::<AudiobookdbChapter>::empty());
    while i < cs.len()
        invariant
            i <= cs@.len(),
            r@ == kept_chapters(cs@.take(i as int)),
        decreases cs.len() - i,
    {
        assert(cs@.take(i + 1).drop_last() =~= cs@.take(i as int));
        let c = &cs[i];
        if c.start_offset_ms >= 0 && c.length_ms >= 0 {
            r.push(c.copy());
        }
        i = i + 1;
    }
    assert(cs@.take(cs.len() as int) =~= cs@);
    r
}

/// Inserting at the position found by scanning from the end is
/// `insert_by_ordinal`.
proof fn lemma_insert_ordinal_position(s: Seq<AudiobookdbChapter>, x: AudiobookdbChapter, j: int)
    requires
        0 <= j <= s.len(),
        forall|k: int| j <= k < s.len() ==> (#[trigger] s[k]).ordinal > x.ordinal,
        j == 0 || s[j - 1].ordinal <= x.ordinal,
    ensures
        insert_by_ordinal(s, x) == s.insert(j, x),
    decreases s.len(),
{
    if s.len() == 0 {
        assert(s.insert(j, x) =~= seq![x]);
    } else if j == s.len() {
        assert(s.insert(j, x) =~= s.push(x));
    } else {
        lemma_insert_ordinal_position(s.drop_last(), x, j);
        assert(s.drop_last().insert(j, x).push(s.last()) =~= s.insert(j, x));
    }
}

/// Chapters stably sorted by ordinal.
fn sort_by_ordinal_exec(v: Vec<AudiobookdbChapter>) -> (r: Vec<AudiobookdbChapter>)
    ensures
        r@ == sort_by_ordinal(v@),
{
    let mut input = v;
    let ghost orig = input@;
    let mut out: Vec<AudiobookdbChapter> = Vec::new();
    let mut i: usize = 0;
    assert(orig.take(0) =~= Seq::<AudiobookdbChapter>::empty());
    assert(orig.skip(0) =~= orig);
    assert(orig.len() == input.len());
    while input.len() > 0
        invariant
            i + input@.len() == orig.len(),
            orig.len() <= usize::MAX,
            input@ == orig.skip(i as int),
            out@ == sort_by_ordinal(orig.take(i as int)),
        decreases input.len(),
    {
        let x = input.remove(0);
        assert(x == orig[i as int]);
        let ghost sv = out@;
        let mut j: usize = out.len();
        while j > 0 && out[j - 1].ordinal > x.ordinal
            invariant
                j <= out@.len(),
                sv == out@,
                forall|k: int| j <= k < out@.len() ==> (#[trigger] sv[k]).ordinal > x.ordinal,
            decreases j,
        {
            j = j - 1;
        }
        proof {
            lemma_insert_ordinal_position(sv, x, j as int);
        }
        out.insert(j, x);
        assert(orig.take(i + 1).drop_last() =~= orig.take(i as int));
        assert(input@ =~= orig.skip(i + 1));
        i = i + 1;
    }
    assert(orig.take(i as int) =~= orig);
    out
}

/// Whether no chapter of `s` has a negative offset or length.
pub open spec fn all_nonnegative(s: Seq<AudiobookdbChapter>) -> bool {
    forall|k: int| 0 <= k < s.len() ==> (#[trigger] s[k]).start_offset_ms >= 0 && s[k].length_ms >= 0
}

/// Kept chapters have no negative values.
proof fn lemma_kept_nonnegative(cs: Seq<AudiobookdbChapter>)
    ensures
        all_nonnegative(kept_chapters(cs)),
    decreases cs.len(),
{
    if cs.len() > 0 {
        lemma_kept_nonnegative(cs.drop_last());
        let prev = kept_chapters(cs.drop_last());
        if cs.last().start_offset_ms >= 0 && cs.last().length_ms >= 0 {
            assert forall|k: int| 0 <= k < prev.push(cs.last()).len() implies (#[trigger] prev.push(
                cs.last(),
            )[k]).start_offset_ms >= 0 && prev.push(cs.last())[k].length_ms >= 0 by {
                if k < prev.len() {
                    assert(prev.push(cs.last())[k] == prev[k]);
                }
            }
        }
    }
}

/// Inserting a chapter without negative values keeps none negative.
proof fn lemma_insert_nonnegative(s: Seq<AudiobookdbChapter>, x: AudiobookdbChapter)
    requires
        all_nonnegative(s),
        x.start_offset_ms >= 0 && x.length_ms >= 0,
    ensures
        all_nonnegative(insert_by_ordinal(s, x)),
    decreases s.len(),
{
    if s.len() == 0 {
    } else if s.last().ordinal <= x.ordinal {
        assert forall|k: int| 0 <= k < s.push(x).len() implies (#[trigger] s.push(x)[k]).start_offset_ms
            >= 0 && s.push(x)[k].length_ms >= 0 by {
            if k < s.len() {
                assert(s.push(x)[k] == s[k]);
            }
        }
    } else {
        assert(all_nonnegative(s.drop_last())) by {
            assert forall|k: int| 0 <= k < s.drop_last().len() implies (#[trigger] s.drop_last()[k]).start_offset_ms
                >= 0 && s.drop_last()[k].length_ms >= 0 by {
                assert(s.drop_last()[k] == s[k]);
            }
        }
        lemma_insert_nonnegative(s.drop_last(), x);
        let t = insert_by_ordinal(s.drop_last(), x);
        assert(s[s.len() - 1] == s.last());
        assert forall|k: int| 0 <= k < t.push(s.last()).len() implies (#[trigger] t.push(s.last())[k]).start_offset_ms
            >= 0 && t.push(s.last())[k].length_ms >= 0 by {
            if k < t.len() {
                assert(t.push(s.last())[k] == t[k]);
            }
        }
    }
}

/// Sorting chapters without negative values keeps none negative.
proof fn lemma_sort_nonnegative(s: Seq<AudiobookdbChapter>)
    requires
        all_nonnegative(s),
    ensures
        all_nonnegative(sort_by_ordinal(s)),
    decreases s.len(),
{
    if s.len() > 0 {
        assert(all_nonnegative(s.drop_last())) by {
            assert forall|k: int| 0 <= k < s.drop_last().len() implies (#[trigger] s.drop_last()[k]).start_offset_ms
                >= 0 && s.drop_last()[k].length_ms >= 0 by {
                assert(s.drop_last()[k] == s[k]);
            }
        }
        lemma_sort_nonnegative(s.drop_last());
        assert(s[s.len() - 1] == s.last());
        lemma_insert_nonnegative(sort_by_ordinal(s.drop_last()), s.last());
    }
}

/// The release's chapters as chapters.
fn release_chapters_exec(release: Option<&AudiobookdbRelease>) -> (r: Vec<Chapter>)
    ensures
        chapter_views(r@) == release_chapters(
            match release {
                Some(x) => Some(*x),
                None => None,
            },
        ),
{
    let rel = match release {
        Some(x) => x,
        None => {
            return Vec::new();
        },
    };
    let cd = match &rel.chapter_detail {
        Some(cd) => cd,
        None => {
            return Vec::new();
        },
    };
    let kept = kept_chapters_exec(&cd.chapters);
    let ghost kv = kept@;
    let sorted = sort_by_ordinal_exec(kept);
    proof {
        lemma_kept_nonnegative(cd.chapters@);
        lemma_sort_nonnegative(kv);
    }
    let mut r: Vec<Chapter> = Vec::new();
    let mut i: usize = 0;
    while i < sorted.len()
        invariant
            i <= sorted@.len(),
            all_nonnegative(sorted@),
            chapter_views(r@) == sorted@.take(i as int).map_values(
                |c: AudiobookdbChapter| chapter_of(c),
            ),
        decreases sorted.len() - i,
    {
        let c = &sorted[i];
        assert(sorted@[i as int].start_offset_ms >= 0 && sorted@[i as int].length_ms >= 0);
        let ch = Chapter::new(
            c.title.as_str(),
            Duration::from_millis(c.start_offset_ms as u64),
            Duration::from_millis(c.length_ms as u64),
        );
        let ghost before = r@;
        r.push(ch);
        assert(chapter_views(r@) =~= chapter_views(before).push(ch@));
        assert(sorted@.take(i + 1).map_values(|c: AudiobookdbChapter| chapter_of(c))
            =~= sorted@.take(i as int).map_values(|c: AudiobookdbChapter| chapter_of(c)).push(
            chapter_of(sorted@[i as int]),
        ));
        i = i + 1;
    }
    assert(sorted@.take(sorted.len() as int) =~= sorted@);
    r
}

/// The genre titles of `gs`.
fn genre_titles(gs: &Vec<AudiobookdbIdTitle>) -> (r: Vec<String>)
    ensures
        string_views(r@) == gs@.map_values(|g: AudiobookdbIdTitle| g.title@),
{
    let mut r: Vec<String> = Vec::new();
    let mut i: usize = 0;
    while i < gs.len()
        invariant
            i <= gs@.len(),
            string_views(r@) == gs@.take(i as int).map_values(|g: AudiobookdbIdTitle| g.title@),
        decreases gs.len() - i,
    {
        let ghost before = r@;
        r.push(gs[i].title.clone());
        assert(string_views(r@) =~= string_views(before).push(gs@[i as int].title@));
        assert(gs@.take(i + 1).map_values(|g: AudiobookdbIdTitle| g.title@) =~= gs@.take(
            i as int,
        ).map_values(|g: AudiobookdbIdTitle| g.title@).push(gs@[i as int].title@));
        i = i + 1;
    }
    assert(gs@.take(gs.len() as int) =~= gs@);
    r
}

impl AudiobookdbClient {
    /// The metadata a book (and the release chapters are read from)
    /// describes; see `audiobookdb_metadata`.
    pub fn map_book(caller_id: &str, book: &AudiobookdbBook, release_data: Option<&AudiobookdbRelease>) -> (m:
        BookMetadata)
        ensures
            m@ == audiobookdb_metadata(
                caller_id@,
                *book,
                match release_data {
                    Some(r) => Some(*r),
                    None => None,
                },
            ),
    {
        let authors = role_names_exec(&book.people, "author");
        let release_narrators = match release_data {
            Some(r) => role_names_exec(&r.people, "narrator"),
            None => {
                let v: Vec<String> = Vec::new();
                assert(string_views(v@) =~= Seq::<Seq<char>>::empty());
                v
            },
        };
        let book_narrators = role_names_exec(&book.people, "narrator");
        let narrators = add_new_names_exec(release_narrators, &book_narrators);
        let (series_name, series_position) = if book.series.len() > 0 {
            let s = &book.series[0];
            let pos = match &s.position.value {
                Some(v) => v.clone(),
                None => s.position.label.clone(),
            };
            (Some(s.series.title.clone()), nonempty_exec(&Some(pos)))
        } else {
            (None, None)
        };
        let year: Option<u32> = match book.copyright {
            Some(c) => Some(c as u32),
            None => match &book.originally_published_at {
                Some(d) => year_from_date(d.as_str()),
                None => None,
            },
        };
        let genres = genre_titles(&book.genres);
        let cover_url = match &book.cover_image {
            Some(img) => Some(cover_url_of(img)),
            None => if book.images.len() > 0 {
                Some(cover_url_of(&book.images[0]))
            } else {
                None
            },
        };
        let subtitle = match nonempty_exec(&book.subtitle) {
            Some(s) => Some(s),
            None => nonempty_exec(&book.disambiguation),
        };
        let chapters = release_chapters_exec(release_data);
        let asin = match nonempty_exec(&book.id) {
            Some(i) => i,
            None => caller_id.to_owned(),
        };
        let description = match &book.description {
            Some(d) => d.clone(),
            None => String::new(),
        };
        let m = BookMetadata {
            asin,
            title: book.title.clone(),
            subtitle,
            authors,
            narrators,
            series_name,
            series_position,
            description,
            genres,
            year,
            cover_url,
            chapters,
        };
        let ghost spec_m = audiobookdb_metadata(
            caller_id@,
            *book,
            match release_data {
                Some(r) => Some(*r),
                None => None,
            },
        );
        assert(m@.asin == spec_m.asin);
        assert(m@.subtitle == spec_m.subtitle);
        assert(m@.authors == spec_m.authors);
        assert(m@.narrators == spec_m.narrators);
        assert(m@.series_name == spec_m.series_name);
        assert(m@.series_position == spec_m.series_position);
        assert(m@.description == spec_m.description);
        assert(m@.genres == spec_m.genres);
        assert(m@.year == spec_m.year);
        assert(m@.cover_url == spec_m.cover_url);
        assert(m@.chapters == spec_m.chapters);
        m
    }
}

/// The instant an HTTP date (IMF-fixdate, RFC 850 or asctime) names, in
/// whole seconds since 1970-01-01 UTC, as `httpdate::parse_http_date` reads
/// it; `None` when it is not such a date.
pub uninterp spec fn http_date_secs(value: Seq<char>) -> Option<u64>;

/// Calls `httpdate::parse_http_date` and gives the date as seconds since
/// the Unix epoch. The crate builds the time as the epoch plus whole
/// seconds, so nothing is lost.
#[verifier::external_body]
fn parse_http_date_secs(value: &str) -> (r: Option<u64>)
    ensures
        r == http_date_secs(value@),
{
    httpdate::parse_http_date(value).ok().map(
        |t| t.duration_since(std::time::UNIX_EPOCH).map_or(0, |d| d.as_secs()),
    )
}

/// Reads the system clock (`SystemTime::now`) as seconds and nanoseconds
/// since the Unix epoch; a clock set before 1970 reads as the epoch. The
/// time is whatever the clock says, so only the range of the nanoseconds is
/// stated.
#[verifier::external_body]
fn now_since_epoch() -> (r: (u64, u32))
    ensures
        r.1 < 1_000_000_000,
{
    let d = std::time::SystemTime::now().duration_since(std::time::UNIX_EPOCH).unwrap_or_default();
    (d.as_secs(), d.subsec_nanos())
}

/// The smaller of two naturals.
pub open spec fn min_nat(a: nat, b: nat) -> nat {
    if a <= b {
        a
    } else {
        b
    }
}

/// The wait a `Retry-After` value asks for at time `now` (nanoseconds since
/// the epoch), in nanoseconds: delta-seconds, or the time until an HTTP date
/// (zero for a past date), either way at most sixty seconds. `None` when the
/// (trimmed) value is neither.
pub open spec fn retry_after_nanos(value: Seq<char>, now: nat) -> Option<nat> {
    let t = trim(value);
    match parse_unsigned(t) {
        Some(secs) if secs <= u64::MAX => Some(min_nat(secs, 60) * 1_000_000_000),
        _ => match http_date_secs(t) {
            Some(d) => Some(
                if d * 1_000_000_000 <= now {
                    0
                } else {
                    min_nat((d * 1_000_000_000 - now) as nat, 60_000_000_000)
                },
            ),
            None => None,
        },
    }
}

impl AudiobookdbClient {
    /// The wait a `Retry-After` value asks for when the time is `now`; see
    /// `retry_after_nanos`.
    pub fn retry_after_at(value: &str, now: Duration) -> (r: Option<Duration>)
        ensures
            match retry_after_nanos(value@, now@) {
                Some(n) => r matches Some(d) && d@ == n,
                None => r is None,
            },
    {
        let t = trim_str(value);
        let tc = chars_of(t.as_str());
        match parse_u64(tc.as_slice()) {
            Some(secs) => {
                let capped: u64 = if secs <= RETRY_AFTER_MAX_SECS {
                    secs
                } else {
                    RETRY_AFTER_MAX_SECS
                };
                return Some(Duration::from_secs(capped));
            },
            None => {},
        }
        match parse_http_date_secs(t.as_str()) {
            Some(d) => {
                let date = Duration::from_secs(d);
                if date.le(&now) {
                    Some(Duration::zero())
                } else {
                    let wait = date.saturating_sub(now);
                    let cap = Duration::from_secs(RETRY_AFTER_MAX_SECS);
                    if wait.le(&cap) {
                        Some(wait)
                    } else {
                        Some(cap)
                    }
                }
            },
            None => None,
        }
    }

    /// The wait a `Retry-After` value asks for, measured from now: see
    /// `retry_after_nanos`. Delta-seconds do not depend on the clock.
    pub fn parse_retry_after(value: &str) -> (r: Option<Duration>)
        ensures
            exists|now: nat|
                match #[trigger] retry_after_nanos(value@, now) {
                    Some(n) => r matches Some(d) && d@ == n,
                    None => r is None,
                },
    {
        let (secs, nanos) = now_since_epoch();
        let now = Duration::new(secs, nanos);
        AudiobookdbClient::retry_after_at(value, now)
    }
}

/// The stages of looking a book up.
#[derive(Debug, Clone, Copy, PartialEq, Eq, Structural)]
pub enum FetchPhase {
    Start,
    First,
    Fallback,
    Searching,
    FromHit,
    Release,
    Done,
}

/// What a lookup of `book_id` has gathered so far.
pub struct FetchState {
    /// The stage it waits in.
    pub phase: FetchPhase,
    /// The identifier looked up.
    pub book_id: String,
    /// The book found, while its release is fetched.
    pub book: Option<AudiobookdbBook>,
}

/// The outcome of the last request of a lookup.
pub enum FetchEvent {
    /// The lookup starts.
    Begin,
    /// A book request ended.
    BookFetched(Result<AudiobookdbBook, AudiobookdbError>),
    /// The search ended.
    HitsFound(Result<Vec<SearchDocumentBook>, AudiobookdbError>),
    /// The release request ended: the release, or `None` where it failed.
    ReleaseFetched(Option<AudiobookdbRelease>),
}

/// The next request of a lookup.
pub enum FetchAction {
    /// Get the book at `url`; a 404 names `not_found_id`.
    GetBook { url: String, not_found_id: String },
    /// Search the books for `query` at `url`.
    Search { url: String, query: String },
    /// Get release `id` at `url`.
    GetRelease { url: String, id: String },
    /// The lookup is over, with the book's metadata or the error.
    Finish(Result<BookMetadata, AudiobookdbError>),
}

/// Whether `event` is the outcome that a lookup in `phase` waits for.
pub open spec fn fetch_accepts(phase: FetchPhase, event: FetchEvent) -> bool {
    match event {
        FetchEvent::Begin => phase == FetchPhase::Start,
        FetchEvent::BookFetched(_) => phase == FetchPhase::First || phase == FetchPhase::Fallback
            || phase == FetchPhase::FromHit,
        FetchEvent::HitsFound(_) => phase == FetchPhase::Searching,
        FetchEvent::ReleaseFetched(_) => phase == FetchPhase::Release,
    }
}

/// The lookup goes on in `phase` with a request for the book `id`.
pub open spec fn book_requested(
    base: Seq<char>,
    state: FetchState,
    phase: FetchPhase,
    url: Seq<char>,
    id: Seq<char>,
    s: FetchState,
    a: FetchAction,
) -> bool {
    &&& s.phase == phase
    &&& s.book_id == state.book_id
    &&& a matches FetchAction::GetBook { url: u, not_found_id: n }
    &&& u@ == url
    &&& n@ == id
}

/// The lookup ends with `e`.
pub open spec fn fetch_failed(e: AudiobookdbError, s: FetchState, a: FetchAction) -> bool {
    &&& s.phase == FetchPhase::Done
    &&& a == FetchAction::Finish(Err(e))
}

/// The lookup ends, as no book carries the id.
pub open spec fn id_not_found(id: Seq<char>, s: FetchState, a: FetchAction) -> bool {
    &&& s.phase == FetchPhase::Done
    &&& a matches FetchAction::Finish(Err(AudiobookdbError::IdNotFound(x)))
    &&& x@ == id
}

/// Once book `b` is found: its release is fetched where it has one, else
/// the lookup ends with the book's metadata.
pub open spec fn release_planned(base: Seq<char>, state: FetchState, b: AudiobookdbBook, s: FetchState, a: FetchAction) -> bool {
    match release_choice(b, opt_view(b.matched_release_id)) {
        Some(rid) => {
            &&& s.phase == FetchPhase::Release
            &&& s.book_id == state.book_id
            &&& s.book == Some(b)
            &&& a matches FetchAction::GetRelease { url, id }
            &&& url@ == release_url_of(base, rid)
            &&& id@ == rid
        },
        None => {
            &&& s.phase == FetchPhase::Done
            &&& a matches FetchAction::Finish(Ok(m))
            &&& m@ == audiobookdb_metadata(state.book_id@, b, None)
        },
    }
}

/// Whether `s` and `a` follow `state` on `event` in a lookup through a
/// client with base URL `base`: an ASIN-shaped id is looked up through the
/// external endpoint, any other as an internal book id. Where that finds
/// nothing, the fallback for the id is taken: the internal endpoint, a
/// search whose exact-id hit is then fetched, or giving up. A book found has
/// its release fetched where it has one; the metadata is made of both (a
/// failed release request counts as none).
pub open spec fn fetch_next(base: Seq<char>, state: FetchState, event: FetchEvent, s: FetchState, a: FetchAction) -> bool {
    let id = state.book_id@;
    match event {
        FetchEvent::Begin => book_requested(
            base,
            state,
            FetchPhase::First,
            if endpoint_for(id) == BookEndpoint::ExternalAsin {
                external_url_of(base, id)
            } else {
                book_url_of(base, id)
            },
            id,
            s,
            a,
        ),
        FetchEvent::BookFetched(r) => match r {
            Ok(b) => release_planned(base, state, b, s, a),
            Err(e) => if state.phase == FetchPhase::First && e is NotFound {
                match fallback_for(id, endpoint_for(id)) {
                    NotFoundFallback::InternalBook => book_requested(
                        base,
                        state,
                        FetchPhase::Fallback,
                        book_url_of(base, id),
                        id,
                        s,
                        a,
                    ),
                    NotFoundFallback::Search => {
                        &&& s.phase == FetchPhase::Searching
                        &&& s.book_id == state.book_id
                        &&& a matches FetchAction::Search { url, query }
                        &&& url@ == base + "/search"@
                        &&& query@ == id
                    },
                    NotFoundFallback::GiveUp => id_not_found(id, s, a),
                }
            } else {
                fetch_failed(e, s, a)
            },
        },
        FetchEvent::HitsFound(r) => match r {
            Err(e) => fetch_failed(e, s, a),
            Ok(hits) => match first_hit(hits@, id) {
                None => id_not_found(id, s, a),
                Some(k) => book_requested(
                    base,
                    state,
                    FetchPhase::FromHit,
                    book_url_of(base, hits@[k].id@),
                    hits@[k].id@,
                    s,
                    a,
                ),
            },
        },
        FetchEvent::ReleaseFetched(rel) => {
            &&& s.phase == FetchPhase::Done
            &&& a matches FetchAction::Finish(Ok(m))
            &&& m@ == audiobookdb_metadata(id, state.book->Some_0, rel)
        },
    }
}

impl FetchState {
    /// While the release is fetched, the book is there.
    pub open spec fn wf(&self) -> bool {
        self.phase == FetchPhase::Release ==> self.book is Some
    }

    /// A lookup of `book_id` about to start.
    pub fn new(book_id: &str) -> (s: FetchState)
        ensures
            s.phase == FetchPhase::Start,
            s.book_id@ == book_id@,
            s.wf(),
    {
        FetchState { phase: FetchPhase::Start, book_id: book_id.to_owned(), book: None }
    }

    /// Whether `event` is the outcome this lookup waits for.
    pub fn accepts(&self, event: &FetchEvent) -> (b: bool)
        ensures
            b == fetch_accepts(self.phase, *event),
    {
        match event {
            FetchEvent::Begin => self.phase == FetchPhase::Start,
            FetchEvent::BookFetched(_) => self.phase == FetchPhase::First || self.phase
                == FetchPhase::Fallback || self.phase == FetchPhase::FromHit,
            FetchEvent::HitsFound(_) => self.phase == FetchPhase::Searching,
            FetchEvent::ReleaseFetched(_) => self.phase == FetchPhase::Release,
        }
    }
}

impl AudiobookdbClient {
    /// Goes on once book `b` is found; see `release_planned`.
    fn plan_release(&self, state: FetchState, b: AudiobookdbBook) -> (r: (FetchState, FetchAction))
        ensures
            release_planned(self.base_url_text(), state, b, r.0, r.1),
            r.0.wf(),
    {
        let matched: Option<&str> = match &b.matched_release_id {
            Some(m) => Some(m.as_str()),
            None => None,
        };
        match AudiobookdbClient::release_id_for(&b, matched) {
            Some(rid) => {
                let url = self.release_url(rid.as_str());
                (
                    FetchState { phase: FetchPhase::Release, book_id: state.book_id, book: Some(b) },
                    FetchAction::GetRelease { url, id: rid },
                )
            },
            None => {
                let m = AudiobookdbClient::map_book(state.book_id.as_str(), &b, None);
                (FetchState { phase: FetchPhase::Done, ..state }, FetchAction::Finish(Ok(m)))
            },
        }
    }

    /// One step of looking a book up; see `fetch_next`.
    pub fn fetch_step(&self, state: FetchState, event: FetchEvent) -> (r: (FetchState, FetchAction))
        requires
            state.wf(),
            fetch_accepts(state.phase, event),
        ensures
            fetch_next(self.base_url_text(), state, event, r.0, r.1),
            r.0.wf(),
    {
        match event {
            FetchEvent::Begin => {
                let url = match AudiobookdbClient::resolve_endpoint(state.book_id.as_str()) {
                    BookEndpoint::ExternalAsin => self.external_url(state.book_id.as_str()),
                    BookEndpoint::InternalBook => self.book_url(state.book_id.as_str()),
                };
                let id = state.book_id.clone();
                (FetchState { phase: FetchPhase::First, ..state }, FetchAction::GetBook { url, not_found_id: id })
            },
            FetchEvent::BookFetched(r) => match r {
                Ok(b) => self.plan_release(state, b),
                Err(e) => {
                    let not_found = match &e {
                        AudiobookdbError::NotFound(_) => true,
                        _ => false,
                    };
                    if state.phase == FetchPhase::First && not_found {
                        let endpoint = AudiobookdbClient::resolve_endpoint(state.book_id.as_str());
                        match AudiobookdbClient::not_found_fallback(state.book_id.as_str(), endpoint) {
                            NotFoundFallback::InternalBook => {
                                let url = self.book_url(state.book_id.as_str());
                                let id = state.book_id.clone();
                                (
                                    FetchState { phase: FetchPhase::Fallback, ..state },
                                    FetchAction::GetBook { url, not_found_id: id },
                                )
                            },
                            NotFoundFallback::Search => {
                                let url = self.search_url();
                                let query = state.book_id.clone();
                                (FetchState { phase: FetchPhase::Searching, ..state }, FetchAction::Search { url, query })
                            },
                            NotFoundFallback::GiveUp => {
                                let id = state.book_id.clone();
                                (
                                    FetchState { phase: FetchPhase::Done, ..state },
                                    FetchAction::Finish(Err(AudiobookdbError::IdNotFound(id))),
                                )
                            },
                        }
                    } else {
                        (FetchState { phase: FetchPhase::Done, ..state }, FetchAction::Finish(Err(e)))
                    }
                },
            },
            FetchEvent::HitsFound(r) => match r {
                Err(e) => (FetchState { phase: FetchPhase::Done, ..state }, FetchAction::Finish(Err(e))),
                Ok(hits) => match AudiobookdbClient::select_search_hit(state.book_id.as_str(), hits.as_slice()) {
                    None => {
                        let id = state.book_id.clone();
                        (
                            FetchState { phase: FetchPhase::Done, ..state },
                            FetchAction::Finish(Err(AudiobookdbError::IdNotFound(id))),
                        )
                    },
                    Some(hit) => {
                        let url = self.book_url(hit.id.as_str());
                        let id = hit.id.clone();
                        (
                            FetchState { phase: FetchPhase::FromHit, ..state },
                            FetchAction::GetBook { url, not_found_id: id },
                        )
                    },
                },
            },
            FetchEvent::ReleaseFetched(rel) => {
                let book = state.book.unwrap();
                let m = match &rel {
                    Some(r) => AudiobookdbClient::map_book(state.book_id.as_str(), &book, Some(r)),
                    None => AudiobookdbClient::map_book(state.book_id.as_str(), &book, None),
                };
                (
                    FetchState { phase: FetchPhase::Done, book_id: state.book_id, book: None },
                    FetchAction::Finish(Ok(m)),
                )
            },
        }
    }
}

/// A lookup is retried only after one of the first `MAX_RETRIES` attempts,
/// so a lookup makes at most `1 + MAX_RETRIES` requests.
pub proof fn lemma_retries_bounded(attempt: nat, transient: bool, retry_after: Option<nat>)
    ensures
        retry_delay(attempt, transient, retry_after) is Some ==> attempt < crate::api::MAX_RETRIES,
        !transient ==> retry_delay(attempt, transient, retry_after) is None,
{
}

/// A `Retry-After` value never makes the client wait more than sixty
/// seconds.
pub proof fn lemma_retry_after_capped(value: Seq<char>, now: nat)
    ensures
        retry_after_nanos(value, now) matches Some(n) ==> n <= RETRY_AFTER_MAX_SECS
            * 1_000_000_000,
{
}

/// The search hit taken for an id carries exactly that id.
pub proof fn lemma_search_hit_exact(hits: Seq<SearchDocumentBook>, id: Seq<char>)
    ensures
        first_hit(hits, id) matches Some(k) ==> 0 <= k < hits.len() && hits[k].id@ == id,
        first_hit(hits, id) is None ==> forall|k: int| 0 <= k < hits.len() ==> (#[trigger] hits[k]).id@
            != id,
    decreases hits.len(),
{
    if hits.len() > 0 {
        lemma_search_hit_exact(hits.drop_last(), id);
        if first_hit(hits, id) is None {
            assert forall|k: int| 0 <= k < hits.len() implies (#[trigger] hits[k]).id@ != id by {
                if k < hits.len() - 1 {
                    assert(hits[k] == hits.drop_last()[k]);
                }
            }
        }
    }
}

/// Whether the ordinals of `s` never decrease.
pub open spec fn sorted_by_ordinal(s: Seq<AudiobookdbChapter>) -> bool {
    forall|i: int, j: int| 0 <= i <= j < s.len() ==> s[i].ordinal <= s[j].ordinal
}

/// Every ordinal of inserting `x` into `s` is bounded when those of `s` and
/// `x` are.
proof fn lemma_insert_ordinal_bounded(s: Seq<AudiobookdbChapter>, x: AudiobookdbChapter, b: i32)
    requires
        forall|k: int| 0 <= k < s.len() ==> #[trigger] s[k].ordinal <= b,
        x.ordinal <= b,
    ensures
        forall|k: int| 0 <= k < insert_by_ordinal(s, x).len() ==> #[trigger] insert_by_ordinal(s, x)[k].ordinal <= b,
    decreases s.len(),
{
    let r = insert_by_ordinal(s, x);
    if s.len() == 0 {
        assert(r == seq![x]);
    } else if s.last().ordinal <= x.ordinal {
        assert(r == s.push(x));
        assert forall|k: int| 0 <= k < r.len() implies #[trigger] r[k].ordinal <= b by {
            if k < s.len() {
                assert(r[k] == s[k]);
            }
        }
    } else {
        let t = s.drop_last();
        lemma_insert_ordinal_bounded(t, x, b);
        let q = insert_by_ordinal(t, x);
        assert(r == q.push(s.last()));
        assert forall|k: int| 0 <= k < r.len() implies #[trigger] r[k].ordinal <= b by {
            if k < q.len() {
                assert(r[k] == q[k]);
            }
        }
    }
}

/// Inserting into chapters sorted by ordinal keeps them sorted.
proof fn lemma_insert_ordinal_sorted(s: Seq<AudiobookdbChapter>, x: AudiobookdbChapter)
    requires
        sorted_by_ordinal(s),
    ensures
        sorted_by_ordinal(insert_by_ordinal(s, x)),
    decreases s.len(),
{
    if s.len() > 0 && s.last().ordinal > x.ordinal {
        let t = s.drop_last();
        lemma_insert_ordinal_sorted(t, x);
        lemma_insert_ordinal_bounded(t, x, s.last().ordinal);
        let r = insert_by_ordinal(t, x);
        assert(insert_by_ordinal(s, x) == r.push(s.last()));
        assert forall|i: int, j: int| 0 <= i <= j < r.len() + 1 implies r.push(s.last())[i].ordinal
            <= r.push(s.last())[j].ordinal by {
            if j == r.len() && i < r.len() {
                assert(r[i].ordinal <= s.last().ordinal);
            }
        }
    }
}

/// The chapters read from a release are ordered by ordinal and none has a
/// negative offset or length.
pub proof fn lemma_release_chapters_ordered(cs: Seq<AudiobookdbChapter>)
    ensures
        sorted_by_ordinal(sort_by_ordinal(kept_chapters(cs))),
        all_nonnegative(sort_by_ordinal(kept_chapters(cs))),
{
    lemma_sort_by_ordinal_sorted(kept_chapters(cs));
    lemma_kept_nonnegative(cs);
    lemma_sort_nonnegative(kept_chapters(cs));
}

/// Sorting by ordinal sorts.
proof fn lemma_sort_by_ordinal_sorted(s: Seq<AudiobookdbChapter>)
    ensures
        sorted_by_ordinal(sort_by_ordinal(s)),
    decreases s.len(),
{
    if s.len() > 0 {
        lemma_sort_by_ordinal_sorted(s.drop_last());
        lemma_insert_ordinal_sorted(sort_by_ordinal(s.drop_last()), s.last());
    }
}

/// Every narrator named on the book is among the narrators mapped, after
/// those of the release, and no name is added twice.
pub proof fn lemma_narrators_merged(acc: Seq<Seq<char>>, names: Seq<Seq<char>>)
    ensures
        add_new_names(acc, names).take(acc.len() as int) == acc,
        add_new_names(acc, names).len() >= acc.len(),
        forall|k: int| 0 <= k < names.len() ==> add_new_names(acc, names).contains(#[trigger] names[k]),
    decreases names.len(),
{
    let r = add_new_names(acc, names);
    if names.len() > 0 {
        let t = names.drop_last();
        lemma_narrators_merged(acc, t);
        let a = add_new_names(acc, t);
        if !a.contains(names.last()) {
            assert(a.push(names.last()).take(acc.len() as int) =~= a.take(acc.len() as int));
            assert(a.push(names.last())[a.len() as int] == names.last());
        }
        assert forall|k: int| 0 <= k < names.len() implies r.contains(#[trigger] names[k]) by {
            if k < names.len() - 1 {
                assert(names[k] == t[k]);
                assert(a.contains(t[k]));
                let j = choose|j: int| 0 <= j < a.len() && a[j] == t[k];
                if !a.contains(names.last()) {
                    assert(a.push(names.last())[j] == a[j]);
                }
            } else if !a.contains(names.last()) {
                assert(r[a.len() as int] == names.last());
            }
        }
    } else {
        assert(acc.take(acc.len() as int) =~= acc);
    }
}

} // verus!
