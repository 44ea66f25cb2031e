//! The audnexus (Audible) metadata source: identifier rules, request URLs,
//! how responses map to errors, and how a book record maps to metadata.

use vstd::prelude::*;

use crate::duration::Duration;
use crate::metadata::{chapter_views, opt_view, BookMetadata, Chapter, ChapterView, IntoBookMetadata};
use crate::api::{source_client_settings, source_settings, ClientSettings};
use crate::outside_types::{build_http_client, json_error_text, reqwest_error_text};
use crate::text::{
    chars_of, contains, contains_exec, dec, extend_chars, extend_str, is_ascii_alnum,
    is_ascii_alnum_exec, parse_u32, parse_unsigned, split, split_exec, string_of, string_views,
    views,
};

verus! {

/// Default API base URL for audnexus.
pub const DEFAULT_API_URL: &'static str = "https://api.audnex.us";

/// Audible region for audnexus lookups (`?region=` query parameter).
#[derive(Debug, Clone, Copy, PartialEq, Eq, Structural)]
pub enum MetadataRegion {
    Au,
    Ca,
    De,
    Es,
    Fr,
    In,
    It,
    Jp,
    Us,
    Uk,
}

/// The two-letter code of a region.
pub open spec fn region_code(r: MetadataRegion) -> Seq<char> {
    match r {
        MetadataRegion::Au => "au"@,
        MetadataRegion::Ca => "ca"@,
        MetadataRegion::De => "de"@,
        MetadataRegion::Es => "es"@,
        MetadataRegion::Fr => "fr"@,
        MetadataRegion::In => "in"@,
        MetadataRegion::It => "it"@,
        MetadataRegion::Jp => "jp"@,
        MetadataRegion::Us => "us"@,
        MetadataRegion::Uk => "uk"@,
    }
}

impl MetadataRegion {
    /// The two-letter code of the region.
    pub fn code(&self) -> (s: &'static str)
        ensures
            s@ == region_code(*self),
    {
        match self {
            MetadataRegion::Au => "au",
            MetadataRegion::Ca => "ca",
            MetadataRegion::De => "de",
            MetadataRegion::Es => "es",
            MetadataRegion::Fr => "fr",
            MetadataRegion::In => "in",
            MetadataRegion::It => "it",
            MetadataRegion::Jp => "jp",
            MetadataRegion::Us => "us",
            MetadataRegion::Uk => "uk",
        }
    }

    /// The region's code as a string.
    pub fn to_string(&self) -> (s: String)
        ensures
            s@ == region_code(*self),
    {
        self.code().to_owned()
    }
}

impl Default for MetadataRegion {
    fn default() -> (r: MetadataRegion)
        ensures
            r == MetadataRegion::Us,
    {
        MetadataRegion::Us
    }
}

/// Errors that can occur when calling the audnexus API.
#[derive(Debug)]
pub enum AudibleError {
    InvalidMetadataId(String),
    NotFound(String),
    RegionUnavailable { metadata_id: String, region: MetadataRegion },
    RateLimited,
    Timeout,
    Network(reqwest::Error),
    ParseError(serde_json::Error),
    ApiError { status: u16, message: String },
    RetryExhausted(usize),
}

/// Whether `s` is the message of `e`; the text of a network or JSON error
/// is the outside crate's own.
pub open spec fn audible_message(e: AudibleError, s: Seq<char>) -> bool {
    &&& (e matches AudibleError::InvalidMetadataId(id) ==>
        s == "Invalid metadata_id '"@ + id@ + "': the audnexus source requires a 10-character ASIN (e.g. B08XYZ1234)"@)
    &&& (e matches AudibleError::NotFound(id) ==>
        s == "Book not found for metadata_id: "@ + id@)
    &&& (e matches AudibleError::RegionUnavailable { metadata_id, region } ==>
        s == "Book not available in region '"@ + region_code(region) + "' for metadata_id: "@ + metadata_id@ + " \u{2014} try --region with the book's Audible market"@)
    &&& (e is RateLimited ==>
        s == "Rate limited by API"@)
    &&& (e is Timeout ==>
        s == "Request timeout"@)
    &&& (e matches AudibleError::Network(_) ==>
        exists|t: Seq<char>| s == "Network error: "@ + t)
    &&& (e matches AudibleError::ParseError(_) ==>
        exists|t: Seq<char>| s == "JSON parsing error: "@ + t)
    &&& (e matches AudibleError::ApiError { status, message } ==>
        s == "API error: "@ + dec(status as nat) + " - "@ + message@)
    &&& (e matches AudibleError::RetryExhausted(n) ==>
        s == "Retry exhausted after "@ + dec(n as nat) + " attempts"@)
}

impl AudibleError {
    /// The error message.
    pub fn to_string(&self) -> (s: String)
        ensures
            audible_message(*self, s@),
    {
        let mut out: Vec<char> = Vec::new();
        match self {
            AudibleError::InvalidMetadataId(id) => {
                extend_str(&mut out, "Invalid metadata_id '");
                extend_str(&mut out, id.as_str());
                extend_str(
                    &mut out,
                    "': the audnexus source requires a 10-character ASIN (e.g. B08XYZ1234)",
                );
            },
            AudibleError::NotFound(id) => {
                extend_str(&mut out, "Book not found for metadata_id: ");
                extend_str(&mut out, id.as_str());
            },
            AudibleError::RegionUnavailable { metadata_id, region } => {
                extend_str(&mut out, "Book not available in region '");
                extend_str(&mut out, region.code());
                extend_str(&mut out, "' for metadata_id: ");
                extend_str(&mut out, metadata_id.as_str());
                extend_str(&mut out, " \u{2014} try --region with the book's Audible market");
            },
            AudibleError::RateLimited => {
                extend_str(&mut out, "Rate limited by API");
            },
            AudibleError::Timeout => {
                extend_str(&mut out, "Request timeout");
            },
            AudibleError::Network(e) => {
                extend_str(&mut out, "Network error: ");
                let t = reqwest_error_text(e);
                extend_str(&mut out, t.as_str());
            },
            AudibleError::ParseError(e) => {
                extend_str(&mut out, "JSON parsing error: ");
                let t = json_error_text(e);
                extend_str(&mut out, t.as_str());
            },
            AudibleError::ApiError { status, message } => {
                extend_str(&mut out, "API error: ");
                let d = crate::text::dec_exec(*status as u128);
                extend_chars(&mut out, d.as_slice());
                extend_str(&mut out, " - ");
                extend_str(&mut out, message.as_str());
            },
            AudibleError::RetryExhausted(n) => {
                extend_str(&mut out, "Retry exhausted after ");
                let d = crate::text::dec_exec(*n as u128);
                extend_chars(&mut out, d.as_slice());
                extend_str(&mut out, " attempts");
            },
        }
        string_of(out.as_slice())
    }
}

/// Whether `id` has the shape of an ASIN: ten ASCII letters or digits.
pub open spec fn ascii_asin(id: Seq<char>) -> bool {
    id.len() == 10 && forall|i: int| 0 <= i < id.len() ==> is_ascii_alnum(#[trigger] id[i])
}

/// Whether every character is an ASCII letter or digit, and there are ten.
pub fn is_ascii_asin(id: &str) -> (b: bool)
    ensures
        b == ascii_asin(id@),
{
    let c = chars_of(id);
    if c.len() != 10 {
        return false;
    }
    let mut i: usize = 0;
    while i < c.len()
        invariant
            i <= c@.len(),
            c@ == id@,
            forall|k: int| 0 <= k < i ==> is_ascii_alnum(#[trigger] id@[k]),
        decreases c.len() - i,
    {
        if !is_ascii_alnum_exec(c[i]) {
            return false;
        }
        i = i + 1;
    }
    true
}

/// The audnexus URL of book `id` in `region`.
pub open spec fn book_url_of(base_url: Seq<char>, id: Seq<char>, region: MetadataRegion) -> Seq<char> {
    base_url + "/books/"@ + id + "?region="@ + region_code(region)
}

/// Whether an audnexus error is worth retrying: network failures, rate
/// limiting, timeouts and server errors (5xx).
pub open spec fn audible_transient(e: AudibleError) -> bool {
    match e {
        AudibleError::Network(_) => true,
        AudibleError::RateLimited => true,
        AudibleError::Timeout => true,
        AudibleError::ApiError { status, .. } => status >= 500,
        _ => false,
    }
}

/// Client for the audnexus API.
#[derive(Debug)]
pub struct AudibleClient {
    client: reqwest::Client,
    settings: ClientSettings,
    base_url: String,
    region: MetadataRegion,
}

impl AudibleClient {
    /// A client for the default API URL and the US region.
    pub fn new() -> (r: Result<AudibleClient, AudibleError>)
        ensures
            r matches Ok(c) ==> c.base_url_text() == DEFAULT_API_URL@ && c.region_of()
                == MetadataRegion::Us && c.settings_of() == source_client_settings(),
            r matches Err(e) ==> e is Network,
    {
        AudibleClient::with_base_url_region(DEFAULT_API_URL, MetadataRegion::Us)
    }

    /// A client for `base_url` and the US region.
    pub fn with_base_url(base_url: &str) -> (r: Result<AudibleClient, AudibleError>)
        ensures
            r matches Ok(c) ==> c.base_url_text() == base_url@ && c.region_of() == MetadataRegion::Us
                && c.settings_of() == source_client_settings(),
            r matches Err(e) ==> e is Network,
    {
        AudibleClient::with_base_url_region(base_url, MetadataRegion::Us)
    }

    /// A client for `base_url` and `region`.
    pub fn with_base_url_region(base_url: &str, region: MetadataRegion) -> (r: Result<
        AudibleClient,
        AudibleError,
    >)
        ensures
            r matches Ok(c) ==> c.base_url_text() == base_url@ && c.region_of() == region
                && c.settings_of() == source_client_settings(),
            r matches Err(e) ==> e is Network,
    {
        let (built, settings) = build_http_client(source_settings());
        match built {
            Ok(client) => Ok(AudibleClient { client, settings, base_url: base_url.to_owned(), region }),
            Err(e) => Err(AudibleError::Network(e)),
        }
    }

    /// The settings the HTTP client was built with.
    pub closed spec fn settings_of(&self) -> ClientSettings {
        self.settings
    }

    /// The settings the HTTP client was built with.
    pub fn settings(&self) -> (s: ClientSettings)
        ensures
            s == self.settings_of(),
    {
        self.settings
    }

    /// The API base URL, as text.
    pub closed spec fn base_url_text(&self) -> Seq<char> {
        self.base_url@
    }

    /// The region looked up in.
    pub closed spec fn region_of(&self) -> MetadataRegion {
        self.region
    }

    /// The API base URL.
    pub fn base_url(&self) -> (s: &str)
        ensures
            s@ == self.base_url_text(),
    {
        self.base_url.as_str()
    }

    /// The region looked up in.
    pub fn region(&self) -> (r: MetadataRegion)
        ensures
            r == self.region_of(),
    {
        self.region
    }

    /// The HTTP client requests are sent with.
    pub closed spec fn client_of(&self) -> reqwest::Client {
        self.client
    }

    /// The HTTP client.
    pub fn http(&self) -> (c: &reqwest::Client)
        ensures
            *c == self.client_of(),
    {
        &self.client
    }

    /// Whether an error is transient and should be retried.
    pub fn is_transient_error(error: &AudibleError) -> (b: bool)
        ensures
            b == audible_transient(*error),
    {
        match error {
            AudibleError::Network(_) => true,
            AudibleError::RateLimited => true,
            AudibleError::Timeout => true,
            AudibleError::ApiError { status, .. } => *status >= 500,
            _ => false,
        }
    }

    /// Checks that `id` is an ASIN: ten ASCII letters or digits.
    pub fn validate_id(id: &str) -> (r: Result<(), AudibleError>)
        ensures
            r is Ok <==> ascii_asin(id@),
            r matches Err(e) ==> (e matches AudibleError::InvalidMetadataId(s) && s@ == id@),
    {
        if is_ascii_asin(id) {
            Ok(())
        } else {
            Err(AudibleError::InvalidMetadataId(id.to_owned()))
        }
    }

    /// The audnexus URL of book `id` in `region`.
    pub fn book_url(base_url: &str, id: &str, region: MetadataRegion) -> (s: String)
        ensures
            s@ == book_url_of(base_url@, id@, region),
    {
        let mut out: Vec<char> = Vec::new();
        extend_str(&mut out, base_url);
        extend_str(&mut out, "/books/");
        extend_str(&mut out, id);
        extend_str(&mut out, "?region=");
        extend_str(&mut out, region.code());
        string_of(out.as_slice())
    }

    /// The error for a 404: `RegionUnavailable` when the body names
    /// `REGION_UNAVAILABLE`, otherwise `NotFound`.
    pub fn not_found_error(id: &str, region: MetadataRegion, body: &str) -> (e: AudibleError)
        ensures
            contains(body@, "REGION_UNAVAILABLE"@) ==> (e matches AudibleError::RegionUnavailable {
                metadata_id,
                region: r,
            } && metadata_id@ == id@ && r == region),
            !contains(body@, "REGION_UNAVAILABLE"@) ==> (e matches AudibleError::NotFound(s) && s@
                == id@),
    {
        let b = chars_of(body);
        let pat = chars_of("REGION_UNAVAILABLE");
        if contains_exec(b.as_slice(), pat.as_slice()) {
            AudibleError::RegionUnavailable { metadata_id: id.to_owned(), region }
        } else {
            AudibleError::NotFound(id.to_owned())
        }
    }

    /// The error for a response that is not 200 OK: 404 as
    /// `not_found_error`, 429 rate limited, 408 timeout, anything else an API
    /// error carrying the status and body.
    pub fn error_for_status(status: u16, body: String, id: &str, region: MetadataRegion) -> (e:
        AudibleError)
        requires
            status != 200,
        ensures
            status == 404 && contains(body@, "REGION_UNAVAILABLE"@) ==> (
            e matches AudibleError::RegionUnavailable { metadata_id, region: r } && metadata_id@
                == id@ && r == region),
            status == 404 && !contains(body@, "REGION_UNAVAILABLE"@) ==> (
            e matches AudibleError::NotFound(s) && s@ == id@),
            status == 429 ==> e is RateLimited,
            status == 408 ==> e is Timeout,
            status != 404 && status != 429 && status != 408 ==> (e matches AudibleError::ApiError {
                status: st,
                message,
            } && st == status && message@ == body@),
    {
        if status == 404 {
            AudibleClient::not_found_error(id, region, body.as_str())
        } else if status == 429 {
            AudibleError::RateLimited
        } else if status == 408 {
            AudibleError::Timeout
        } else {
            AudibleError::ApiError { status, message: body }
        }
    }
}

/// A person in an audnexus record.
#[derive(Debug, Clone)]
pub struct ApiPerson {
    pub name: String,
}

/// A series in an audnexus record.
#[derive(Debug, Clone)]
pub struct ApiSeries {
    pub name: String,
    pub position: Option<String>,
}

/// A genre in an audnexus record.
#[derive(Debug, Clone)]
pub struct ApiGenre {
    pub name: String,
}

/// A chapter in an audnexus record, offsets in milliseconds.
#[derive(Debug, Clone)]
pub struct ApiChapter {
    pub title: String,
    pub start_offset_ms: u64,
    pub length_ms: u64,
}

/// The chapter list of an audnexus record.
#[derive(Debug, Clone)]
pub struct ApiChapterInfo {
    pub chapters: Vec<ApiChapter>,
}

/// An audnexus book record.
#[derive(Debug, Clone)]
pub struct ApiBookResponse {
    pub asin: String,
    pub title: String,
    pub subtitle: Option<String>,
    pub authors: Vec<ApiPerson>,
    pub narrators: Vec<ApiPerson>,
    pub series: Vec<ApiSeries>,
    pub summary: Option<String>,
    pub genres: Vec<ApiGenre>,
    pub release_date: Option<String>,
    pub chapter_info: Option<ApiChapterInfo>,
    pub image: Option<String>,
}

/// The names of people, in order.
pub open spec fn person_names(ps: Seq<ApiPerson>) -> Seq<Seq<char>> {
    ps.map_values(|p: ApiPerson| p.name@)
}

/// The names of genres, in order.
pub open spec fn genre_names(gs: Seq<ApiGenre>) -> Seq<Seq<char>> {
    gs.map_values(|g: ApiGenre| g.name@)
}

/// The chapters of an audnexus record, offsets in milliseconds made
/// nanoseconds.
pub open spec fn api_chapters(cs: Seq<ApiChapter>) -> Seq<ChapterView> {
    cs.map_values(
        |c: ApiChapter|
            ChapterView {
                title: c.title@,
                start: (c.start_offset_ms as nat) * 1_000_000,
                duration: (c.length_ms as nat) * 1_000_000,
            },
    )
}

/// The year of a date such as `2023-01-15`: its text before the first `-`,
/// read as a `u32`.
pub open spec fn year_of_date(d: Seq<char>) -> Option<u32> {
    match parse_unsigned(split(d, '-')[0]) {
        Some(v) => if v <= u32::MAX {
            Some(v as u32)
        } else {
            None
        },
        None => None,
    }
}

/// The metadata an audnexus record describes: its fields, the first series,
/// the year of the release date, and the chapters.
pub open spec fn audnexus_metadata(r: ApiBookResponse) -> crate::metadata::BookMetadataView {
    crate::metadata::BookMetadataView {
        asin: r.asin@,
        title: r.title@,
        subtitle: opt_view(r.subtitle),
        authors: person_names(r.authors@),
        narrators: person_names(r.narrators@),
        series_name: if r.series@.len() > 0 {
            Some(r.series@[0].name@)
        } else {
            None
        },
        series_position: if r.series@.len() > 0 {
            opt_view(r.series@[0].position)
        } else {
            None
        },
        description: match r.summary {
            Some(s) => s@,
            None => seq![],
        },
        genres: genre_names(r.genres@),
        year: match r.release_date {
            Some(d) => year_of_date(d@),
            None => None,
        },
        cover_url: opt_view(r.image),
        chapters: match r.chapter_info {
            Some(info) => api_chapters(info.chapters@),
            None => seq![],
        },
    }
}

/// The names of `ps`.
fn names_of(ps: &Vec<ApiPerson>) -> (r: Vec<String>)
    ensures
        string_views(r@) == person_names(ps@),
{
    let mut r: Vec<String> = Vec::new();
    let mut i: usize = 0;
    while i < ps.len()
        invariant
            i <= ps@.len(),
            string_views(r@) == person_names(ps@.take(i as int)),
        decreases ps.len() - i,
    {
        let ghost before = r@;
        r.push(ps[i].name.clone());
        assert(string_views(r@) =~= string_views(before).push(ps@[i as int].name@));
        assert(person_names(ps@.take(i + 1)) =~= person_names(ps@.take(i as int)).push(
            ps@[i as int].name@,
        ));
        i = i + 1;
    }
    assert(ps@.take(ps.len() as int) =~= ps@);
    r
}

/// The names of `gs`.
fn genre_names_of(gs: &Vec<ApiGenre>) -> (r: Vec<String>)
    ensures
        string_views(r@) == genre_names(gs@),
{
    let mut r: Vec<String> = Vec::new();
    let mut i: usize = 0;
    while i < gs.len()
        invariant
            i <= gs@.len(),
            string_views(r@) == genre_names(gs@.take(i as int)),
        decreases gs.len() - i,
    {
        let ghost before = r@;
        r.push(gs[i].name.clone());
        assert(string_views(r@) =~= string_views(before).push(gs@[i as int].name@));
        assert(genre_names(gs@.take(i + 1)) =~= genre_names(gs@.take(i as int)).push(
            gs@[i as int].name@,
        ));
        i = i + 1;
    }
    assert(gs@.take(gs.len() as int) =~= gs@);
    r
}

/// The chapters of `cs`.
fn chapters_of(cs: &Vec<ApiChapter>) -> (r: Vec<Chapter>)
    ensures
        chapter_views(r@) == api_chapters(cs@),
{
    let mut r: Vec<Chapter> = Vec::new();
    let mut i: usize = 0;
    while i < cs.len()
        invariant
            i <= cs@.len(),
            chapter_views(r@) == api_chapters(cs@.take(i as int)),
        decreases cs.len() - i,
    {
        let c = &cs[i];
        let ch = Chapter::new(
            c.title.as_str(),
            Duration::from_millis(c.start_offset_ms),
            Duration::from_millis(c.length_ms),
        );
        let ghost before = r@;
        r.push(ch);
        assert(chapter_views(r@) =~= chapter_views(before).push(ch@));
        assert(api_chapters(cs@.take(i + 1)) =~= api_chapters(cs@.take(i as int)).push(
            api_chapters(cs@)[i as int],
        ));
        i = i + 1;
    }
    assert(cs@.take(cs.len() as int) =~= cs@);
    r
}

/// The year of a release date.
pub fn year_from_date(d: &str) -> (r: Option<u32>)
    ensures
        r == year_of_date(d@),
{
    let c = chars_of(d);
    let parts = split_exec(c.as_slice(), '-');
    proof {
        crate::text::lemma_split_nonempty(d@, '-');
    }
    assert(views(parts@)[0] == parts@[0]@);
    parse_u32(parts[0].as_slice())
}

impl IntoBookMetadata for ApiBookResponse {
    fn into_book_metadata(self) -> (m: BookMetadata)
        ensures
            m@ == audnexus_metadata(self),
    {
        let year = match &self.release_date {
            Some(d) => year_from_date(d.as_str()),
            None => None,
        };
        let chapters = match &self.chapter_info {
            Some(info) => chapters_of(&info.chapters),
            None => Vec::new(),
        };
        let (series_name, series_position) = if self.series.len() > 0 {
            (Some(self.series[0].name.clone()), self.series[0].position.clone())
        } else {
            (None, None)
        };
        let authors = names_of(&self.authors);
        let narrators = names_of(&self.narrators);
        let genres = genre_names_of(&self.genres);
        let description = match self.summary {
            Some(s) => s,
            None => String::new(),
        };
        let m = BookMetadata {
            asin: self.asin,
            title: self.title,
            subtitle: self.subtitle,
            authors,
            narrators,
            series_name,
            series_position,
            description,
            genres,
            year,
            cover_url: self.image,
            chapters,
        };
        assert(chapter_views(m.chapters@) =~= audnexus_metadata(self).chapters);
        m
    }
}

/// The region a client was made with is the one its book URLs ask for.
pub proof fn lemma_book_url_names_region(base_url: Seq<char>, id: Seq<char>, region: MetadataRegion)
    ensures
        crate::text::ends_with(book_url_of(base_url, id, region), "?region="@ + region_code(region)),
{
    let u = book_url_of(base_url, id, region);
    let t = "?region="@ + region_code(region);
    assert(u =~= (base_url + "/books/"@ + id) + t);
    assert(u.subrange(u.len() - t.len(), u.len() as int) =~= t);
}

/// Law: mapping an audnexus record keeps what it says of the book: its
/// ASIN, title and subtitle, the summary as description (empty only
/// without a summary), the authors' and narrators' names in order, and the
/// image as cover.
pub proof fn lemma_audnexus_mapping_keeps_record(r: ApiBookResponse)
    ensures
        ({
            let m = audnexus_metadata(r);
            &&& m.asin == r.asin@
            &&& m.title == r.title@
            &&& m.subtitle == opt_view(r.subtitle)
            &&& (r.summary matches Some(s) ==> m.description == s@)
            &&& (r.summary is None ==> m.description.len() == 0)
            &&& m.authors.len() == r.authors@.len()
            &&& (forall|i: int| 0 <= i < r.authors@.len() ==> m.authors[i] == (#[trigger] r.authors@[i]).name@)
            &&& m.narrators.len() == r.narrators@.len()
            &&& (forall|i: int|
                0 <= i < r.narrators@.len() ==> m.narrators[i] == (#[trigger] r.narrators@[i]).name@)
            &&& m.cover_url == opt_view(r.image)
        }),
{
}

} // verus!
