//! Book metadata and chapters, as fetched from a metadata source or read from
//! the input files.

use vstd::prelude::*;

use crate::duration::{max_nanos, Duration};
use crate::text::{join, string_of, string_views, chars_of, push_char, byte_len, byte_len_capped, is_ascii_alnum};

verus! {

/// A chapter as plain values: title, start and duration in nanoseconds.
pub struct ChapterView {
    pub title: Seq<char>,
    pub start: nat,
    pub duration: nat,
}

/// Chapter information for audiobooks.
#[derive(Debug, Clone, PartialEq)]
pub struct Chapter {
    pub title: String,
    pub start_time: Duration,
    pub duration: Duration,
}

impl View for Chapter {
    type V = ChapterView;

    open spec fn view(&self) -> ChapterView {
        ChapterView { title: self.title@, start: self.start_time@, duration: self.duration@ }
    }
}

/// The views of a sequence of chapters.
pub open spec fn chapter_views(v: Seq<Chapter>) -> Seq<ChapterView> {
    v.map_values(|c: Chapter| c@)
}

impl Chapter {
    /// A chapter with the given title, start time and duration.
    pub fn new(title: &str, start_time: Duration, duration: Duration) -> (c: Chapter)
        ensures
            c.title@ == title@,
            c.start_time == start_time,
            c.duration == duration,
    {
        Chapter { title: title.to_owned(), start_time, duration }
    }

    /// The time at which this chapter ends.
    pub fn end_time(&self) -> (t: Duration)
        requires
            self.start_time@ + self.duration@ <= max_nanos(),
        ensures
            t@ == self.start_time@ + self.duration@,
    {
        self.start_time.add(self.duration)
    }

    /// A copy of this chapter.
    pub fn copy(&self) -> (c: Chapter)
        ensures
            c@ == self@,
    {
        Chapter { title: self.title.clone(), start_time: self.start_time, duration: self.duration }
    }
}

/// Book metadata as plain values.
pub struct BookMetadataView {
    pub asin: Seq<char>,
    pub title: Seq<char>,
    pub subtitle: Option<Seq<char>>,
    pub authors: Seq<Seq<char>>,
    pub narrators: Seq<Seq<char>>,
    pub series_name: Option<Seq<char>>,
    pub series_position: Option<Seq<char>>,
    pub description: Seq<char>,
    pub genres: Seq<Seq<char>>,
    pub year: Option<u32>,
    pub cover_url: Option<Seq<char>>,
    pub chapters: Seq<ChapterView>,
}

/// The view of an optional string.
pub open spec fn opt_view(o: Option<String>) -> Option<Seq<char>> {
    match o {
        Some(s) => Some(s@),
        None => None,
    }
}

/// Complete metadata for an audiobook.
#[derive(Debug, Clone, PartialEq)]
pub struct BookMetadata {
    pub asin: String,
    pub title: String,
    pub subtitle: Option<String>,
    pub authors: Vec<String>,
    pub narrators: Vec<String>,
    pub series_name: Option<String>,
    pub series_position: Option<String>,
    pub description: String,
    pub genres: Vec<String>,
    pub year: Option<u32>,
    pub cover_url: Option<String>,
    pub chapters: Vec<Chapter>,
}

impl View for BookMetadata {
    type V = BookMetadataView;

    open spec fn view(&self) -> BookMetadataView {
        BookMetadataView {
            asin: self.asin@,
            title: self.title@,
            subtitle: opt_view(self.subtitle),
            authors: string_views(self.authors@),
            narrators: string_views(self.narrators@),
            series_name: opt_view(self.series_name),
            series_position: opt_view(self.series_position),
            description: self.description@,
            genres: string_views(self.genres@),
            year: self.year,
            cover_url: opt_view(self.cover_url),
            chapters: chapter_views(self.chapters@),
        }
    }
}

/// Whether `c` is alphanumeric in Unicode terms (`char::is_alphanumeric`).
pub uninterp spec fn char_is_alphanumeric(c: char) -> bool;

/// Calls `char::is_alphanumeric`: true when the character is alphabetic or
/// numeric in Unicode terms. For ASCII characters that is exactly the letters
/// and digits; beyond ASCII the result is named, not stated.
#[verifier::external_body]
fn is_alphanumeric(c: char) -> (b: bool)
    ensures
        b == char_is_alphanumeric(c),
        b == alphanumeric(c),
{
    c.is_alphanumeric()
}

/// Whether `c` is alphanumeric: for ASCII, a letter or a digit; beyond
/// ASCII, as `char::is_alphanumeric` decides.
pub open spec fn alphanumeric(c: char) -> bool {
    if (c as u32) < 128 {
        is_ascii_alnum(c)
    } else {
        char_is_alphanumeric(c)
    }
}

/// Whether `asin` has the shape of an ASIN: ten characters, all
/// alphanumeric.
pub open spec fn valid_asin(asin: Seq<char>) -> bool {
    asin.len() == 10 && forall|i: int| 0 <= i < asin.len() ==> alphanumeric(#[trigger] asin[i])
}

/// The display title: the title, then `": "` and the subtitle when present.
pub open spec fn full_title_of(m: BookMetadataView) -> Seq<char> {
    match m.subtitle {
        Some(sub) => m.title + ": "@ + sub,
        None => m.title,
    }
}

/// The strings in `v` joined by `", "`.
pub fn join_comma(v: &Vec<String>) -> (s: String)
    ensures
        s@ == join(string_views(v@), ", "@),
{
    let mut s = String::new();
    let mut i: usize = 0;
    let sep = chars_of(", ");
    while i < v.len()
        invariant
            i <= v.len(),
            sep@ == ", "@,
            s@ == join(string_views(v@).take(i as int), ", "@),
        decreases v.len() - i,
    {
        let ghost before = s@;
        if i > 0 {
            s.append(", ");
        }
        s.append(v[i].as_str());
        assert(string_views(v@).take(i + 1).drop_last() =~= string_views(v@).take(i as int));
        if i == 0 {
            assert(s@ =~= join(string_views(v@).take(1), ", "@));
        }
        i = i + 1;
    }
    assert(string_views(v@).take(v.len() as int) =~= string_views(v@));
    s
}

impl BookMetadata {
    /// Metadata with the required fields set and every other field empty.
    pub fn new(asin: &str, title: &str, description: &str) -> (m: BookMetadata)
        ensures
            m@ == (BookMetadataView {
                asin: asin@,
                title: title@,
                subtitle: None,
                authors: seq![],
                narrators: seq![],
                series_name: None,
                series_position: None,
                description: description@,
                genres: seq![],
                year: None,
                cover_url: None,
                chapters: seq![],
            }),
    {
        let m = BookMetadata {
            asin: asin.to_owned(),
            title: title.to_owned(),
            subtitle: None,
            authors: Vec::new(),
            narrators: Vec::new(),
            series_name: None,
            series_position: None,
            description: description.to_owned(),
            genres: Vec::new(),
            year: None,
            cover_url: None,
            chapters: Vec::new(),
        };
        assert(m@.authors =~= seq![]);
        assert(m@.narrators =~= seq![]);
        assert(m@.genres =~= seq![]);
        assert(m@.chapters =~= seq![]);
        m
    }

    /// This metadata with `author` appended to the authors.
    pub fn add_author(self, author: &str) -> (m: BookMetadata)
        ensures
            m@ == (BookMetadataView { authors: self@.authors.push(author@), ..self@ }),
    {
        let mut m = self;
        m.authors.push(author.to_owned());
        assert(m@.authors =~= self@.authors.push(author@));
        m
    }

    /// This metadata with `narrator` appended to the narrators.
    pub fn add_narrator(self, narrator: &str) -> (m: BookMetadata)
        ensures
            m@ == (BookMetadataView { narrators: self@.narrators.push(narrator@), ..self@ }),
    {
        let mut m = self;
        m.narrators.push(narrator.to_owned());
        assert(m@.narrators =~= self@.narrators.push(narrator@));
        m
    }

    /// This metadata with `genre` appended to the genres.
    pub fn add_genre(self, genre: &str) -> (m: BookMetadata)
        ensures
            m@ == (BookMetadataView { genres: self@.genres.push(genre@), ..self@ }),
    {
        let mut m = self;
        m.genres.push(genre.to_owned());
        assert(m@.genres =~= self@.genres.push(genre@));
        m
    }

    /// This metadata with `chapter` appended to the chapters.
    pub fn add_chapter(self, chapter: Chapter) -> (m: BookMetadata)
        ensures
            m@ == (BookMetadataView { chapters: self@.chapters.push(chapter@), ..self@ }),
    {
        let mut m = self;
        m.chapters.push(chapter);
        assert(m@.chapters =~= self@.chapters.push(chapter@));
        m
    }

    /// This metadata with the subtitle set.
    pub fn with_subtitle(self, subtitle: &str) -> (m: BookMetadata)
        ensures
            m@ == (BookMetadataView { subtitle: Some(subtitle@), ..self@ }),
    {
        let mut m = self;
        m.subtitle = Some(subtitle.to_owned());
        m
    }

    /// This metadata with the series name and position set.
    pub fn with_series(self, name: &str, position: &str) -> (m: BookMetadata)
        ensures
            m@ == (BookMetadataView {
                series_name: Some(name@),
                series_position: Some(position@),
                ..self@
            }),
    {
        let mut m = self;
        m.series_name = Some(name.to_owned());
        m.series_position = Some(position.to_owned());
        m
    }

    /// This metadata with the release year set.
    pub fn with_year(self, year: u32) -> (m: BookMetadata)
        ensures
            m@ == (BookMetadataView { year: Some(year), ..self@ }),
    {
        let mut m = self;
        m.year = Some(year);
        m
    }

    /// This metadata with the cover URL set.
    pub fn with_cover_url(self, url: &str) -> (m: BookMetadata)
        ensures
            m@ == (BookMetadataView { cover_url: Some(url@), ..self@ }),
    {
        let mut m = self;
        m.cover_url = Some(url.to_owned());
        m
    }

    /// Whether `asin` has the ASIN format: ten characters, all alphanumeric.
    pub fn is_valid_asin(asin: &str) -> (b: bool)
        ensures
            b == valid_asin(asin@),
    {
        let v = chars_of(asin);
        if v.len() != 10 {
            return false;
        }
        let mut i: usize = 0;
        while i < v.len()
            invariant
                i <= v.len(),
                v@ == asin@,
                asin@.len() == 10,
                forall|k: int| 0 <= k < i ==> alphanumeric(#[trigger] v@[k]),
            decreases v.len() - i,
        {
            if !is_alphanumeric(v[i]) {
                return false;
            }
            i = i + 1;
        }
        true
    }

    /// The display title: title and, when present, `": "` and the subtitle.
    pub fn full_title(&self) -> (s: String)
        ensures
            s@ == full_title_of(self@),
    {
        match &self.subtitle {
            Some(subtitle) => {
                let mut s = self.title.clone();
                s.append(": ");
                s.append(subtitle.as_str());
                s
            },
            None => self.title.clone(),
        }
    }

    /// The authors joined by `", "`.
    pub fn authors_str(&self) -> (s: String)
        ensures
            s@ == join(self@.authors, ", "@),
    {
        join_comma(&self.authors)
    }

    /// The narrators joined by `", "`.
    pub fn narrators_str(&self) -> (s: String)
        ensures
            s@ == join(self@.narrators, ", "@),
    {
        join_comma(&self.narrators)
    }

    /// The end of the last chapter, or `None` when there are no chapters.
    pub fn total_duration(&self) -> (d: Option<Duration>)
        requires
            self.chapters@.len() > 0 ==> self.chapters@.last().start_time@
                + self.chapters@.last().duration@ <= max_nanos(),
        ensures
            self.chapters@.len() == 0 ==> d is None,
            self.chapters@.len() > 0 ==> (d matches Some(t) && t@ == self@.chapters.last().start
                + self@.chapters.last().duration),
    {
        if self.chapters.len() == 0 {
            return None;
        }
        let last = &self.chapters[self.chapters.len() - 1];
        Some(last.end_time())
    }
}

/// Types that can be turned into book metadata.
pub trait IntoBookMetadata {
    /// The book metadata that this value describes.
    fn into_book_metadata(self) -> BookMetadata;
}

/// `s` with `x` inserted after every element whose start is not later than
/// its own, scanning from the end: the step of a stable insertion sort.
pub open spec fn insert_by_start(s: Seq<ChapterView>, x: ChapterView) -> Seq<ChapterView>
    decreases s.len(),
{
    if s.len() == 0 {
        seq![x]
    } else if s.last().start <= x.start {
        s.push(x)
    } else {
        insert_by_start(s.drop_last(), x).push(s.last())
    }
}

/// `s` stably sorted by start time (what `sort_by_key` on the start gives).
pub open spec fn sort_by_start(s: Seq<ChapterView>) -> Seq<ChapterView>
    decreases s.len(),
{
    if s.len() == 0 {
        seq![]
    } else {
        insert_by_start(sort_by_start(s.drop_last()), s.last())
    }
}

/// Whether the start times of `s` never decrease.
pub open spec fn sorted_by_start(s: Seq<ChapterView>) -> bool {
    forall|i: int, j: int| 0 <= i <= j < s.len() ==> s[i].start <= s[j].start
}

/// Inserting at the position found by scanning from the end is
/// `insert_by_start`.
proof fn lemma_insert_position(s: Seq<ChapterView>, x: ChapterView, j: int)
    requires
        0 <= j <= s.len(),
        forall|k: int| j <= k < s.len() ==> s[k].start > x.start,
        j == 0 || s[j - 1].start <= x.start,
    ensures
        insert_by_start(s, x) == s.insert(j, x),
    decreases s.len(),
{
    if s.len() == 0 {
        assert(s.insert(j, x) =~= seq![x]);
    } else if j == s.len() {
        assert(s.insert(j, x) =~= s.push(x));
    } else {
        lemma_insert_position(s.drop_last(), x, j);
        assert(s.drop_last().insert(j, x).push(s.last()) =~= s.insert(j, x));
    }
}

/// The chapters of `v` stably sorted by start time.
pub fn sort_chapters_by_start(v: &Vec<Chapter>) -> (r: Vec<Chapter>)
    ensures
        chapter_views(r@) == sort_by_start(chapter_views(v@)),
{
    let mut out: Vec<Chapter> = Vec::new();
    let mut i: usize = 0;
    assert(chapter_views(v@).take(0) =~= Seq::<ChapterView>::empty());
    while i < v.len()
        invariant
            i <= v.len(),
            chapter_views(out@) == sort_by_start(chapter_views(v@).take(i as int)),
        decreases v.len() - i,
    {
        let x = v[i].copy();
        let ghost sv = chapter_views(out@);
        let mut j: usize = out.len();
        while j > 0 && !out[j - 1].start_time.le(&x.start_time)
            invariant
                j <= out@.len(),
                sv == chapter_views(out@),
                forall|k: int| j <= k < out@.len() ==> sv[k].start > x@.start,
            decreases j,
        {
            j = j - 1;
        }
        proof {
            lemma_insert_position(sv, x@, j as int);
        }
        out.insert(j, x);
        assert(chapter_views(out@) =~= sv.insert(j as int, x@));
        assert(chapter_views(v@).take(i + 1).drop_last() =~= chapter_views(v@).take(i as int));
        i = i + 1;
    }
    assert(chapter_views(v@).take(v.len() as int) =~= chapter_views(v@));
    out
}

/// Inserting keeps every start time under a common bound.
proof fn lemma_insert_bounded(s: Seq<ChapterView>, x: ChapterView, b: nat)
    requires
        forall|k: int| 0 <= k < s.len() ==> s[k].start <= b,
        x.start <= b,
    ensures
        forall|k: int|
            0 <= k < insert_by_start(s, x).len() ==> #[trigger] insert_by_start(s, x)[k].start <= b,
    decreases s.len(),
{
    let r = insert_by_start(s, x);
    if s.len() == 0 {
        assert(r == seq![x]);
    } else if s.last().start <= x.start {
        assert(r == s.push(x));
        assert forall|k: int| 0 <= k < r.len() implies #[trigger] r[k].start <= b by {
            if k < s.len() {
                assert(r[k] == s[k]);
            }
        }
    } else {
        let t = s.drop_last();
        lemma_insert_bounded(t, x, b);
        let q = insert_by_start(t, x);
        assert(r == q.push(s.last()));
        assert forall|k: int| 0 <= k < r.len() implies #[trigger] r[k].start <= b by {
            if k < q.len() {
                assert(r[k] == q[k]);
            }
        }
    }
}

/// Inserting into a sorted sequence keeps it sorted.
proof fn lemma_insert_sorted(s: Seq<ChapterView>, x: ChapterView)
    requires
        sorted_by_start(s),
    ensures
        sorted_by_start(insert_by_start(s, x)),
    decreases s.len(),
{
    if s.len() > 0 && s.last().start > x.start {
        let t = s.drop_last();
        lemma_insert_sorted(t, x);
        lemma_insert_bounded(t, x, s.last().start);
        let r = insert_by_start(t, x);
        assert(insert_by_start(s, x) == r.push(s.last()));
        assert forall|i: int, j: int| 0 <= i <= j < r.len() + 1 implies r.push(s.last())[i].start
            <= r.push(s.last())[j].start by {
            if j == r.len() && i < r.len() {
                assert(r[i].start <= s.last().start);
            }
        }
    }
}

/// Inserting adds exactly the inserted element.
proof fn lemma_insert_contents(s: Seq<ChapterView>, x: ChapterView)
    ensures
        insert_by_start(s, x).to_multiset() == s.to_multiset().insert(x),
        insert_by_start(s, x).len() == s.len() + 1,
    decreases s.len(),
{
    broadcast use vstd::seq_lib::group_seq_properties, vstd::multiset::group_multiset_axioms;

    if s.len() == 0 {
        assert(seq![x] =~= Seq::<ChapterView>::empty().push(x));
    } else if s.last().start <= x.start {
    } else {
        let t = s.drop_last();
        lemma_insert_contents(t, x);
        assert(s =~= t.push(s.last()));
        assert(insert_by_start(s, x).to_multiset() =~= s.to_multiset().insert(x));
    }
}

/// Law: sorting by start time yields chapters whose start times never
/// decrease, holding exactly the chapters it was given.
pub proof fn lemma_sort_by_start(s: Seq<ChapterView>)
    ensures
        sorted_by_start(sort_by_start(s)),
        sort_by_start(s).to_multiset() == s.to_multiset(),
        sort_by_start(s).len() == s.len(),
    decreases s.len(),
{
    broadcast use vstd::seq_lib::group_seq_properties, vstd::multiset::group_multiset_axioms;

    if s.len() > 0 {
        let t = s.drop_last();
        lemma_sort_by_start(t);
        lemma_insert_sorted(sort_by_start(t), s.last());
        lemma_insert_contents(sort_by_start(t), s.last());
        assert(s =~= t.push(s.last()));
    }
}

} // verus!
