//! Tagging decisions: chapter validation and conversion, cover image
//! detection, the `chapters.txt` and tag contents, and the steps of moving
//! finished source files.

use vstd::prelude::*;

use crate::duration::{max_nanos, Duration};
use crate::metadata::{
    BookMetadata, BookMetadataView, Chapter, ChapterView, chapter_views, sort_by_start,
    sort_chapters_by_start,
};
use crate::text::{
    byte_len, chars_of, dec, dec_padded, extend_chars, extend_str, join, string_of, zero_pad,
    utf8_width, dec_exec,
};
use crate::metadata::join_comma;
use crate::outside_types::{build_default_http_client, reqwest_error_text};

verus! {

/// Errors that can occur during tagging operations.
#[derive(Debug)]
pub enum TaggingError {
    Io(std::io::Error),
    Mp4Meta(String),
    CoverDownload(String),
    InvalidFormat(String),
    FileNotFound(String),
    FileMove(String),
    DuplicateChapterTimes,
}

/// Whether `s` is the message of `e`; the text of an I/O error is std's
/// own.
pub open spec fn tagging_message(e: TaggingError, s: Seq<char>) -> bool {
    &&& (e matches TaggingError::Io(_) ==>
        exists|t: Seq<char>| s == "IO error: "@ + t)
    &&& (e matches TaggingError::Mp4Meta(m) ==>
        s == "MP4 metadata error: "@ + m@)
    &&& (e matches TaggingError::CoverDownload(m) ==>
        s == "Cover download error: "@ + m@)
    &&& (e matches TaggingError::InvalidFormat(m) ==>
        s == "Invalid file format: "@ + m@)
    &&& (e matches TaggingError::FileNotFound(p) ==>
        s == "File not found: "@ + p@)
    &&& (e matches TaggingError::FileMove(m) ==>
        s == "File move error: "@ + m@)
    &&& (e is DuplicateChapterTimes ==>
        s == "Duplicate chapter start times detected"@)
}

impl TaggingError {
    /// The error message.
    pub fn to_string(&self) -> (s: String)
        ensures
            tagging_message(*self, s@),
    {
        let mut out: Vec<char> = Vec::new();
        match self {
            TaggingError::Io(e) => {
                crate::text::extend_str(&mut out, "IO error: ");
                let t = crate::outside_types::io_error_text(e);
                crate::text::extend_str(&mut out, t.as_str());
            },
            TaggingError::Mp4Meta(m) => {
                crate::text::extend_str(&mut out, "MP4 metadata error: ");
                crate::text::extend_str(&mut out, m.as_str());
            },
            TaggingError::CoverDownload(m) => {
                crate::text::extend_str(&mut out, "Cover download error: ");
                crate::text::extend_str(&mut out, m.as_str());
            },
            TaggingError::InvalidFormat(m) => {
                crate::text::extend_str(&mut out, "Invalid file format: ");
                crate::text::extend_str(&mut out, m.as_str());
            },
            TaggingError::FileNotFound(p) => {
                crate::text::extend_str(&mut out, "File not found: ");
                crate::text::extend_str(&mut out, p.as_str());
            },
            TaggingError::FileMove(m) => {
                crate::text::extend_str(&mut out, "File move error: ");
                crate::text::extend_str(&mut out, m.as_str());
            },
            TaggingError::DuplicateChapterTimes => {
                crate::text::extend_str(&mut out, "Duplicate chapter start times detected");
            },
        }
        crate::text::string_of(out.as_slice())
    }
}

/// Behavior when the destination of a move already exists.
#[derive(Debug, Clone, Copy, PartialEq, Eq, Structural)]
pub enum OverwriteBehavior {
    /// Skip the file, don't overwrite.
    Skip,
    /// Return an error.
    Error,
    /// Overwrite the existing file.
    Force,
}

impl Default for OverwriteBehavior {
    fn default() -> (b: OverwriteBehavior)
        ensures
            b == OverwriteBehavior::Error,
    {
        OverwriteBehavior::Error
    }
}

/// Image formats that can be embedded as cover art.
#[derive(Debug, Clone, Copy, PartialEq, Eq, Structural)]
pub enum ImageFormat {
    Jpeg,
    Png,
}

/// Whether `d` starts with the JPEG signature `FF D8 FF`.
pub open spec fn jpeg_signature(d: Seq<u8>) -> bool {
    d[0] == 0xFF && d[1] == 0xD8 && d[2] == 0xFF
}

/// Whether `d` starts with the PNG signature `89 50 4E 47 0D 0A 1A 0A`.
pub open spec fn png_signature(d: Seq<u8>) -> bool {
    d[0] == 0x89 && d[1] == 0x50 && d[2] == 0x4E && d[3] == 0x47 && d[4] == 0x0D && d[5] == 0x0A
        && d[6] == 0x1A && d[7] == 0x0A
}

/// The format of an image, from its leading bytes; at least eight are needed.
pub fn detect_image_format(data: &[u8]) -> (r: Result<ImageFormat, TaggingError>)
    ensures
        data@.len() < 8 ==> (r matches Err(TaggingError::InvalidFormat(m)) && m@
            == "Image data too short"@),
        data@.len() >= 8 && jpeg_signature(data@) ==> r matches Ok(ImageFormat::Jpeg),
        data@.len() >= 8 && !jpeg_signature(data@) && png_signature(data@) ==> r matches Ok(
            ImageFormat::Png,
        ),
        data@.len() >= 8 && !jpeg_signature(data@) && !png_signature(data@) ==> (r matches Err(
            TaggingError::InvalidFormat(m),
        ) && m@ == "Unknown image format"@),
{
    if data.len() < 8 {
        return Err(TaggingError::InvalidFormat("Image data too short".to_owned()));
    }
    if data[0] == 0xFF && data[1] == 0xD8 && data[2] == 0xFF {
        return Ok(ImageFormat::Jpeg);
    }
    if data[0] == 0x89 && data[1] == 0x50 && data[2] == 0x4E && data[3] == 0x47 && data[4] == 0x0D
        && data[5] == 0x0A && data[6] == 0x1A && data[7] == 0x0A {
        return Ok(ImageFormat::Png);
    }
    Err(TaggingError::InvalidFormat("Unknown image format".to_owned()))
}

/// `HH:MM:SS.mmm` for a number of milliseconds (hours may take more digits).
pub open spec fn clock_text(ms: nat) -> Seq<char> {
    zero_pad(dec(ms / 3_600_000), 2) + seq![':'] + zero_pad(dec((ms % 3_600_000) / 60_000), 2)
        + seq![':'] + zero_pad(dec((ms % 60_000) / 1000), 2) + seq!['.'] + zero_pad(
        dec(ms % 1000),
        3,
    )
}

/// The characters of `clock_text` for whole milliseconds.
fn clock_chars(ms: u128) -> (r: Vec<char>)
    ensures
        r@ == clock_text(ms as nat),
{
    let mut out = dec_padded(ms / 3_600_000, 2);
    out.push(':');
    let m = dec_padded((ms % 3_600_000) / 60_000, 2);
    extend_chars(&mut out, m.as_slice());
    out.push(':');
    let s = dec_padded((ms % 60_000) / 1000, 2);
    extend_chars(&mut out, s.as_slice());
    out.push('.');
    let f = dec_padded(ms % 1000, 3);
    extend_chars(&mut out, f.as_slice());
    assert(out@ =~= clock_text(ms as nat));
    out
}

/// A duration as `HH:MM:SS.mmm`, truncated to whole milliseconds.
pub fn format_duration(duration: Duration) -> (s: String)
    ensures
        s@ == clock_text(duration@ / 1_000_000),
{
    let v = clock_chars(duration.as_millis());
    string_of(v.as_slice())
}

/// Whether two chapters of `s` share a start time.
pub open spec fn has_duplicate_start(s: Seq<ChapterView>) -> bool {
    exists|i: int| 1 <= i < s.len() && #[trigger] s[i].start == s[i - 1].start
}

/// Sorts `chapters` by start time (stably) and checks that no two chapters
/// start at the same time. The chapters are sorted whatever the outcome.
pub fn validate_and_sort_chapters(chapters: &mut Vec<Chapter>) -> (r: Result<(), TaggingError>)
    ensures
        chapter_views(final(chapters)@) == sort_by_start(chapter_views(old(chapters)@)),
        r is Ok <==> !has_duplicate_start(sort_by_start(chapter_views(old(chapters)@))),
        r is Err ==> r matches Err(TaggingError::DuplicateChapterTimes),
{
    if chapters.len() == 0 {
        assert(chapter_views(chapters@) =~= Seq::<ChapterView>::empty());
        return Ok(());
    }
    let ghost sv = sort_by_start(chapter_views(old(chapters)@));
    proof {
        crate::metadata::lemma_sort_by_start(chapter_views(old(chapters)@));
    }
    let sorted = sort_chapters_by_start(chapters);
    *chapters = sorted;
    let mut i: usize = 1;
    while i < chapters.len()
        invariant
            1 <= i <= chapters@.len(),
            sv == chapter_views(chapters@),
            sv == sort_by_start(chapter_views(old(chapters)@)),
            forall|k: int| 1 <= k < i ==> #[trigger] sv[k].start != sv[k - 1].start,
        decreases chapters.len() - i,
    {
        if chapters[i].start_time.same(&chapters[i - 1].start_time) {
            assert(sv[i as int].start == sv[i - 1].start);
            return Err(TaggingError::DuplicateChapterTimes);
        }
        i = i + 1;
    }
    Ok(())
}

/// A chapter as it is written into the file's chapter list.
#[derive(Debug, Clone, PartialEq)]
pub struct EmbeddedChapter {
    pub start: Duration,
    pub title: String,
}

/// Longest title, in bytes, that the chapter list holds.
pub const MAX_CHAPTER_TITLE_BYTES: usize = 255;

/// How many leading characters of `s` fit into `n` bytes, counting on from
/// the first `i`.
pub open spec fn count_within(s: Seq<char>, n: nat, i: int) -> int
    decreases s.len() - i,
{
    if 0 <= i < s.len() && byte_len(s.take(i + 1)) <= n {
        count_within(s, n, i + 1)
    } else {
        i
    }
}

/// How many leading characters of `s` fit into `n` bytes.
pub open spec fn chars_within(s: Seq<char>, n: nat) -> int {
    count_within(s, n, 0)
}

/// `t` cut to its first 255 bytes when it is longer.
pub open spec fn truncated_title(t: Seq<char>) -> Seq<char> {
    if byte_len(t) > 255 {
        t.take(chars_within(t, 255))
    } else {
        t
    }
}

/// Whether the title can be cut at byte 255 (that byte starts a character).
pub open spec fn cuttable_title(t: Seq<char>) -> bool {
    byte_len(t) > 255 ==> byte_len(t.take(chars_within(t, 255))) == 255
}

/// `t` cut to its first 255 bytes when it is longer.
fn truncate_title(t: &str) -> (r: String)
    requires
        cuttable_title(t@),
    ensures
        r@ == truncated_title(t@),
{
    let v = chars_of(t);
    let mut used: usize = 0;
    let mut i: usize = 0;
    assert(v@.take(0) =~= Seq::<char>::empty());
    while i < v.len()
        invariant
            i <= v.len(),
            v@ == t@,
            used == byte_len(v@.take(i as int)),
            used <= 255,
            chars_within(v@, 255) == count_within(v@, 255, i as int),
        ensures
            i <= v.len(),
            v@ == t@,
            used == byte_len(v@.take(i as int)),
            i < v.len() ==> chars_within(v@, 255) == i,
            i < v.len() ==> byte_len(v@.take(i + 1)) > 255,
        decreases v.len() - i,
    {
        let u = v[i] as u32;
        let w: usize = if u < 0x80 {
            1
        } else if u < 0x800 {
            2
        } else if u < 0x10000 {
            3
        } else {
            4
        };
        assert(v@.take(i + 1).drop_last() =~= v@.take(i as int));
        assert(byte_len(v@.take(i + 1)) == used + w);
        if w > 255 - used {
            break;
        }
        used = used + w;
        i = i + 1;
    }
    if i == v.len() {
        assert(v@.take(i as int) =~= v@);
        return t.to_owned();
    }
    assert(chars_within(v@, 255) == i);
    let mut out: Vec<char> = Vec::new();
    let mut k: usize = 0;
    while k < i
        invariant
            k <= i,
            i <= v@.len(),
            out@ =~= v@.take(k as int),
        decreases i - k,
    {
        out.push(v[k]);
        k = k + 1;
    }
    proof {
        crate::text::lemma_byte_len_prefix(v@, i + 1, v@.len() as int);
        assert(v@.take(v@.len() as int) =~= v@);
    }
    string_of(out.as_slice())
}

/// Converts chapters to their embedded form: sorted by start time, titles cut
/// to 255 bytes.
pub fn convert_chapters_for_embedding(chapters: &Vec<Chapter>, _total_duration: Option<Duration>) -> (r:
    Vec<EmbeddedChapter>)
    requires
        forall|i: int| 0 <= i < chapters@.len() ==> cuttable_title(#[trigger] chapters@[i].title@),
    ensures
        r@.len() == chapters@.len(),
        forall|i: int|
            0 <= i < r@.len() ==> (#[trigger] r@[i]).start@ == sort_by_start(
                chapter_views(chapters@),
            )[i].start && r@[i].title@ == truncated_title(
                sort_by_start(chapter_views(chapters@))[i].title,
            ),
{
    let sorted = sort_chapters_by_start(chapters);
    let ghost sv = sort_by_start(chapter_views(chapters@));
    proof {
        crate::metadata::lemma_sort_by_start(chapter_views(chapters@));
        broadcast use vstd::seq_lib::group_to_multiset_ensures;

        assert forall|i: int| 0 <= i < sv.len() implies cuttable_title(#[trigger] sv[i].title) by {
            assert(sv.to_multiset().count(sv[i]) > 0);
            assert(chapter_views(chapters@).to_multiset().count(sv[i]) > 0);
            assert(chapter_views(chapters@).contains(sv[i]));
            let k = choose|k: int|
                0 <= k < chapter_views(chapters@).len() && chapter_views(chapters@)[k] == sv[i];
            assert(chapters@[k].title@ == sv[i].title);
        }
    }
    let mut r: Vec<EmbeddedChapter> = Vec::new();
    let mut i: usize = 0;
    while i < sorted.len()
        invariant
            i <= sorted@.len(),
            chapter_views(sorted@) == sv,
            sv.len() == chapters@.len(),
            forall|k: int| 0 <= k < sv.len() ==> cuttable_title(#[trigger] sv[k].title),
            r@.len() == i,
            forall|k: int|
                0 <= k < i ==> (#[trigger] r@[k]).start@ == sv[k].start && r@[k].title@
                    == truncated_title(sv[k].title),
        decreases sorted.len() - i,
    {
        assert(sv[i as int] == sorted@[i as int]@);
        assert(cuttable_title(sv[i as int].title));
        assert(sorted@[i as int].title@ == sv[i as int].title);
        let title = truncate_title(sorted[i].title.as_str());
        r.push(EmbeddedChapter { start: sorted[i].start_time, title });
        i = i + 1;
    }
    r
}

/// The chapter lines of `chapters.txt`: start time, a space, the title.
pub open spec fn chapter_lines(cs: Seq<ChapterView>) -> Seq<char>
    decreases cs.len(),
{
    if cs.len() == 0 {
        seq![]
    } else {
        chapter_lines(cs.drop_last()) + clock_text(cs.last().start / 1_000_000) + seq![' ']
            + cs.last().title + seq!['\n']
    }
}

/// The contents of `chapters.txt` (mp4v2 format): artist and album headers,
/// the total duration when there are chapters, then one line per chapter.
pub open spec fn chapters_txt(m: BookMetadataView) -> Seq<char> {
    let artist = if m.authors.len() > 0 {
        "## artist: "@ + join(m.authors, ", "@) + seq!['\n']
    } else {
        seq![]
    };
    let album = "## album: "@ + m.title + seq!['\n'];
    let total = if m.chapters.len() > 0 {
        "## total-duration: "@ + clock_text((m.chapters.last().start + m.chapters.last().duration)
            / 1_000_000) + seq!['\n']
    } else {
        seq![]
    };
    artist + album + total + chapter_lines(m.chapters)
}

/// The contents of the `chapters.txt` file written beside a finished book.
#[verifier::rlimit(40)]
pub fn chapters_txt_content(metadata: &BookMetadata) -> (s: String)
    requires
        metadata.chapters@.len() > 0 ==> metadata.chapters@.last().start_time@
            + metadata.chapters@.last().duration@ <= max_nanos(),
    ensures
        s@ == chapters_txt(metadata@),
{
    let ghost m = metadata@;
    let mut out: Vec<char> = Vec::new();
    if metadata.authors.len() > 0 {
        extend_str(&mut out, "## artist: ");
        let authors = join_comma(&metadata.authors);
        extend_str(&mut out, authors.as_str());
        out.push('\n');
    }
    extend_str(&mut out, "## album: ");
    extend_str(&mut out, metadata.title.as_str());
    out.push('\n');
    match metadata.total_duration() {
        Some(total) => {
            extend_str(&mut out, "## total-duration: ");
            let c = clock_chars(total.as_millis());
            extend_chars(&mut out, c.as_slice());
            out.push('\n');
        },
        None => {},
    }
    let ghost head = out@;
    assert(head =~= chapters_txt(m).take(head.len() as int)) by {
        assert(m.chapters.len() == metadata.chapters@.len());
    }
    let mut i: usize = 0;
    assert(m.chapters.take(0) =~= Seq::<ChapterView>::empty());
    while i < metadata.chapters.len()
        invariant
            i <= metadata.chapters@.len(),
            m == metadata@,
            out@ == head + chapter_lines(m.chapters.take(i as int)),
        decreases metadata.chapters.len() - i,
    {
        let ch = &metadata.chapters[i];
        assert(m.chapters[i as int] == ch@);
        let c = clock_chars(ch.start_time.as_millis());
        extend_chars(&mut out, c.as_slice());
        out.push(' ');
        extend_str(&mut out, ch.title.as_str());
        out.push('\n');
        assert(m.chapters.take(i + 1).drop_last() =~= m.chapters.take(i as int));
        assert(out@ =~= head + chapter_lines(m.chapters.take(i + 1)));
        i = i + 1;
    }
    assert(m.chapters.take(m.chapters.len() as int) =~= m.chapters);
    assert(out@ =~= chapters_txt(m));
    string_of(out.as_slice())
}

/// The tag values written into a book's file. `None` leaves a tag as it was.
#[derive(Debug, Clone, PartialEq)]
pub struct TagPlan {
    pub title: String,
    pub artist: Option<String>,
    pub album: String,
    pub genre: Option<String>,
    pub year: Option<String>,
    pub comment: Option<String>,
    pub grouping: Option<String>,
}

/// The series text: the name, then `" #"` and the position when present.
pub open spec fn series_info(name: Seq<char>, position: Option<Seq<char>>) -> Seq<char> {
    match position {
        Some(p) => name + " #"@ + p,
        None => name,
    }
}

/// The grouping tag after writing: the narrators (when any) replace what the
/// file held, then the series is appended (or set when the grouping is empty).
pub open spec fn planned_grouping(m: BookMetadataView, existing: Option<Seq<char>>) -> Option<
    Seq<char>,
> {
    let after_narrators = if m.narrators.len() > 0 {
        Some("Narrator: "@ + join(m.narrators, ", "@))
    } else {
        existing
    };
    match m.series_name {
        Some(name) => {
            let current = match after_narrators {
                Some(g) => g,
                None => seq![],
            };
            if current.len() == 0 {
                Some("Series: "@ + series_info(name, m.series_position))
            } else {
                Some(current + " | Series: "@ + series_info(name, m.series_position))
            }
        },
        None => if m.narrators.len() > 0 {
            after_narrators
        } else {
            None
        },
    }
}

/// The tags to write for `metadata`, given the grouping the file already
/// holds: title and album from the title, artist from the authors, the first
/// genre, the year, the description as comment, narrators and series in the
/// grouping.
pub fn plan_tags(metadata: &BookMetadata, existing_grouping: Option<&str>) -> (p: TagPlan)
    ensures
        p.title@ == metadata@.title,
        p.album@ == metadata@.title,
        p.artist matches Some(a) ==> a@ == join(metadata@.authors, ", "@),
        p.artist is None <==> metadata@.authors.len() == 0,
        p.genre matches Some(g) ==> g@ == metadata@.genres[0],
        p.genre is None <==> metadata@.genres.len() == 0,
        p.year matches Some(y) ==> metadata.year matches Some(n) && y@ == dec(n as nat),
        p.year is None <==> metadata.year is None,
        p.comment matches Some(c) ==> c@ == metadata@.description,
        p.comment is None <==> metadata@.description.len() == 0,
        crate::metadata::opt_view(p.grouping) == planned_grouping(
            metadata@,
            match existing_grouping {
                Some(g) => Some(g@),
                None => None,
            },
        ),
{
    let artist = if metadata.authors.len() > 0 {
        Some(join_comma(&metadata.authors))
    } else {
        None
    };
    let genre = if metadata.genres.len() > 0 {
        Some(metadata.genres[0].clone())
    } else {
        None
    };
    let year = match metadata.year {
        Some(y) => Some(crate::text::dec_string(y as u128)),
        None => None,
    };
    let comment = if !metadata.description.as_str().is_empty() {
        Some(metadata.description.clone())
    } else {
        None
    };
    let mut grouping: Option<String> = None;
    if metadata.narrators.len() > 0 {
        let mut g = String::new();
        g.append("Narrator: ");
        let n = join_comma(&metadata.narrators);
        g.append(n.as_str());
        grouping = Some(g);
    }
    let after_narrators: Option<String> = match &grouping {
        Some(g) => Some(g.clone()),
        None => match existing_grouping {
            Some(e) => Some(e.to_owned()),
            None => None,
        },
    };
    match &metadata.series_name {
        Some(name) => {
            let mut info = name.clone();
            match &metadata.series_position {
                Some(pos) => {
                    info.append(" #");
                    info.append(pos.as_str());
                },
                None => {},
            }
            let current = match after_narrators {
                Some(g) => g,
                None => String::new(),
            };
            let cv = chars_of(current.as_str());
            if cv.len() == 0 {
                let mut g = String::new();
                g.append("Series: ");
                g.append(info.as_str());
                grouping = Some(g);
            } else {
                let mut g = current;
                g.append(" | Series: ");
                g.append(info.as_str());
                grouping = Some(g);
            }
        },
        None => {},
    }
    TagPlan {
        title: metadata.title.clone(),
        artist,
        album: metadata.title.clone(),
        genre,
        year,
        comment,
        grouping,
    }
}

/// What to do with one source file when moving finished files.
#[derive(Debug, Clone, Copy, PartialEq, Eq, Structural)]
pub enum MoveStep {
    /// The source is gone: skip it.
    SkipMissing,
    /// The destination exists and is kept: skip the source.
    SkipExisting,
    /// The destination exists: stop with an error.
    Refuse,
    /// Remove the existing destination, then move.
    ReplaceThenMove,
    /// Move the source into place.
    Move,
}

/// The step for one file, from whether source and destination exist and the
/// overwrite behavior.
pub fn plan_move(source_exists: bool, dest_exists: bool, behavior: OverwriteBehavior) -> (s:
    MoveStep)
    ensures
        !source_exists ==> s == MoveStep::SkipMissing,
        source_exists && !dest_exists ==> s == MoveStep::Move,
        source_exists && dest_exists ==> s == match behavior {
            OverwriteBehavior::Skip => MoveStep::SkipExisting,
            OverwriteBehavior::Error => MoveStep::Refuse,
            OverwriteBehavior::Force => MoveStep::ReplaceThenMove,
        },
{
    if !source_exists {
        return MoveStep::SkipMissing;
    }
    if !dest_exists {
        return MoveStep::Move;
    }
    match behavior {
        OverwriteBehavior::Skip => MoveStep::SkipExisting,
        OverwriteBehavior::Error => MoveStep::Refuse,
        OverwriteBehavior::Force => MoveStep::ReplaceThenMove,
    }
}

/// The Unix error code of a cross-device link (`EXDEV`).
pub const EXDEV: i32 = 18;

/// Whether an operating-system error code is the cross-device link error.
pub fn is_cross_device_code(code: Option<i32>) -> (b: bool)
    ensures
        b == (code == Some(EXDEV)),
{
    match code {
        Some(c) => c == EXDEV,
        None => false,
    }
}

/// Writes metadata, cover art and chapters, and moves finished sources.
#[derive(Debug)]
pub struct Tagger {
    http_client: reqwest::Client,
    overwrite_behavior: OverwriteBehavior,
}

impl Tagger {
    /// The behavior when a move's destination exists.
    pub closed spec fn behavior(&self) -> OverwriteBehavior {
        self.overwrite_behavior
    }

    /// The HTTP client downloads are made with.
    pub closed spec fn client_of(&self) -> reqwest::Client {
        self.http_client
    }

    /// A tagger with a default HTTP client that refuses to overwrite; a
    /// `CoverDownload` error where the HTTP client cannot be built.
    pub fn new() -> (r: Result<Tagger, TaggingError>)
        ensures
            r matches Ok(t) ==> t.behavior() == OverwriteBehavior::Error,
            r matches Err(e) ==> e matches TaggingError::CoverDownload(m) && exists|t: Seq<char>|
                m@ == "Failed to create HTTP client: "@ + t,
    {
        match build_default_http_client() {
            Ok(client) => Ok(Tagger { http_client: client, overwrite_behavior: OverwriteBehavior::Error }),
            Err(e) => {
                let mut m: Vec<char> = chars_of("Failed to create HTTP client: ");
                let t = reqwest_error_text(&e);
                extend_str(&mut m, t.as_str());
                Err(TaggingError::CoverDownload(string_of(m.as_slice())))
            },
        }
    }

    /// The tagger with `behavior` for existing destinations.
    pub fn with_overwrite_behavior(self, behavior: OverwriteBehavior) -> (t: Tagger)
        ensures
            t.behavior() == behavior,
            t.client_of() == self.client_of(),
    {
        Tagger { http_client: self.http_client, overwrite_behavior: behavior }
    }

    /// The tagger with `client` for downloads.
    pub fn with_http_client(self, client: reqwest::Client) -> (t: Tagger)
        ensures
            t.behavior() == self.behavior(),
            t.client_of() == client,
    {
        Tagger { http_client: client, overwrite_behavior: self.overwrite_behavior }
    }

    /// The behavior when a move's destination exists.
    pub fn overwrite_behavior(&self) -> (b: OverwriteBehavior)
        ensures
            b == self.behavior(),
    {
        self.overwrite_behavior
    }

    /// The HTTP client used for downloads.
    pub fn http_client(&self) -> (c: &reqwest::Client)
        ensures
            *c == self.client_of(),
    {
        &self.http_client
    }
}

/// Where a source file is moved to: its file name under `dest_dir`; a
/// source without a file name cannot be moved.
pub fn move_destination(dest_dir: &str, source: &str) -> (r: Result<String, TaggingError>)
    ensures
        match crate::paths::path_file_name(source@) {
            Some(n) => r matches Ok(p) && p@ == crate::paths::path_join(dest_dir@, n),
            None => r matches Err(TaggingError::FileMove(m)) && m@ == "Invalid source path"@,
        },
{
    match crate::paths::file_name_of(source) {
        Some(n) => Ok(crate::paths::join_path(dest_dir, n.as_str())),
        None => Err(TaggingError::FileMove("Invalid source path".to_owned())),
    }
}

/// The stages of moving finished source files.
#[derive(Debug, Clone, Copy, PartialEq, Eq, Structural)]
pub enum MovePhase {
    Start,
    CreatingDir,
    CheckingSource,
    CheckingDest,
    RemovingDest,
    Renaming,
    Copying,
    RemovingSource,
    Done,
}

/// What moving finished source files into a directory has gathered so far.
pub struct MoveState {
    /// The stage it waits in.
    pub phase: MovePhase,
    /// The source files, moved in order.
    pub sources: Vec<String>,
    /// The directory they are moved into.
    pub dest_dir: String,
    /// What to do where a destination exists.
    pub behavior: OverwriteBehavior,
    /// The source being moved.
    pub index: usize,
    /// Where the source being moved goes.
    pub dest: String,
    /// The destinations of the files moved so far.
    pub moved: Vec<String>,
}

/// The outcome of the last file operation.
pub enum MoveEvent {
    /// Moving starts.
    Begin,
    /// Creating the directory ended.
    DirCreated(Result<(), std::io::Error>),
    /// Whether the path checked exists.
    Exists(bool),
    /// Removing a file ended, with the error's text where it failed.
    Removed(Result<(), String>),
    /// Renaming ended; where it failed, with the error's operating-system
    /// code and text.
    Renamed(Result<(), (Option<i32>, String)>),
    /// Copying ended, with the error's text where it failed.
    Copied(Result<(), String>),
}

/// The next file operation.
pub enum MoveAction {
    /// Create this directory and its parents.
    CreateDir(String),
    /// Check whether this source exists.
    CheckSource(String),
    /// Check whether this destination exists.
    CheckDest(String),
    /// Remove this existing destination.
    RemoveDest(String),
    /// Rename the source (first) to the destination (second).
    Rename(String, String),
    /// Copy the source (first) to the destination (second).
    Copy(String, String),
    /// Remove this source, once copied.
    RemoveSource(String),
    /// Moving is over: the destinations of the files moved, or the error.
    Finish(Result<Vec<String>, TaggingError>),
}

/// Whether `event` is the outcome that a move in `phase` waits for.
pub open spec fn move_accepts(phase: MovePhase, event: MoveEvent) -> bool {
    match event {
        MoveEvent::Begin => phase == MovePhase::Start,
        MoveEvent::DirCreated(_) => phase == MovePhase::CreatingDir,
        MoveEvent::Exists(_) => phase == MovePhase::CheckingSource || phase == MovePhase::CheckingDest,
        MoveEvent::Removed(_) => phase == MovePhase::RemovingDest || phase == MovePhase::RemovingSource,
        MoveEvent::Renamed(_) => phase == MovePhase::Renaming,
        MoveEvent::Copied(_) => phase == MovePhase::Copying,
    }
}

/// The move goes on with source `next`, or ends with `moved` after the last.
pub open spec fn next_source_planned(
    state: MoveState,
    next: int,
    moved: Seq<String>,
    s: MoveState,
    a: MoveAction,
) -> bool {
    if 0 <= next < state.sources@.len() {
        &&& s.phase == MovePhase::CheckingSource
        &&& s.sources == state.sources
        &&& s.dest_dir == state.dest_dir
        &&& s.behavior == state.behavior
        &&& s.index == next
        &&& s.moved@ == moved
        &&& a matches MoveAction::CheckSource(p)
        &&& p@ == state.sources@[next]@
    } else {
        &&& s.phase == MovePhase::Done
        &&& a matches MoveAction::Finish(Ok(v))
        &&& v@ == moved
    }
}

/// The move stops with a file-move error with `message`.
pub open spec fn move_failed(message: Seq<char>, s: MoveState, a: MoveAction) -> bool {
    &&& s.phase == MovePhase::Done
    &&& a matches MoveAction::Finish(Err(TaggingError::FileMove(m)))
    &&& m@ == message
}

/// The move goes on in `phase` with the current source and destination.
pub open spec fn move_goes_on(state: MoveState, phase: MovePhase, s: MoveState) -> bool {
    s == (MoveState { phase, ..state })
}

/// Whether `s` and `a` are the state and action that follow `state` on
/// `event`: the directory is created first; each source that exists then
/// goes to its file name under the directory. An existing destination is
/// skipped, refused or removed first, as the behavior says. A rename that
/// fails across devices is done as a copy and a removal of the source; any
/// other failure stops the move with an error that names the paths.
pub open spec fn move_next(state: MoveState, event: MoveEvent, s: MoveState, a: MoveAction) -> bool {
    let src = state.sources@[state.index as int]@;
    let dest = state.dest@;
    match event {
        MoveEvent::Begin => {
            &&& move_goes_on(state, MovePhase::CreatingDir, s)
            &&& a matches MoveAction::CreateDir(d)
            &&& d@ == state.dest_dir@
        },
        MoveEvent::DirCreated(r) => match r {
            Err(e) => {
                &&& s.phase == MovePhase::Done
                &&& a matches MoveAction::Finish(Err(TaggingError::Io(e2)))
                &&& e2 == e
            },
            Ok(_) => next_source_planned(state, 0, seq![], s, a),
        },
        MoveEvent::Exists(b) => if state.phase == MovePhase::CheckingSource {
            if !b {
                next_source_planned(state, state.index + 1, state.moved@, s, a)
            } else {
                match crate::paths::path_file_name(src) {
                    None => move_failed("Invalid source path"@, s, a),
                    Some(n) => {
                        &&& s == (MoveState { phase: MovePhase::CheckingDest, dest: s.dest, ..state })
                        &&& s.dest@ == crate::paths::path_join(state.dest_dir@, n)
                        &&& a matches MoveAction::CheckDest(d)
                        &&& d@ == s.dest@
                    },
                }
            }
        } else if !b {
            &&& move_goes_on(state, MovePhase::Renaming, s)
            &&& a matches MoveAction::Rename(x, y)
            &&& x@ == src
            &&& y@ == dest
        } else {
            match state.behavior {
                OverwriteBehavior::Skip => next_source_planned(
                    state,
                    state.index + 1,
                    state.moved@,
                    s,
                    a,
                ),
                OverwriteBehavior::Error => move_failed("Destination already exists: "@ + dest, s, a),
                OverwriteBehavior::Force => {
                    &&& move_goes_on(state, MovePhase::RemovingDest, s)
                    &&& a matches MoveAction::RemoveDest(d)
                    &&& d@ == dest
                },
            }
        },
        MoveEvent::Removed(r) => if state.phase == MovePhase::RemovingDest {
            match r {
                Err(m) => move_failed(
                    "Failed to remove existing destination "@ + dest + ": "@ + m@,
                    s,
                    a,
                ),
                Ok(_) => {
                    &&& move_goes_on(state, MovePhase::Renaming, s)
                    &&& a matches MoveAction::Rename(x, y)
                    &&& x@ == src
                    &&& y@ == dest
                },
            }
        } else {
            match r {
                Err(m) => move_failed("Failed to remove source "@ + src + " after copy: "@ + m@, s, a),
                Ok(_) => next_source_planned(
                    state,
                    state.index + 1,
                    state.moved@.push(state.dest),
                    s,
                    a,
                ),
            }
        },
        MoveEvent::Renamed(r) => match r {
            Ok(_) => next_source_planned(state, state.index + 1, state.moved@.push(state.dest), s, a),
            Err((code, m)) => if code == Some(EXDEV) {
                &&& move_goes_on(state, MovePhase::Copying, s)
                &&& a matches MoveAction::Copy(x, y)
                &&& x@ == src
                &&& y@ == dest
            } else {
                move_failed("Failed to move "@ + src + " to "@ + dest + ": "@ + m@, s, a)
            },
        },
        MoveEvent::Copied(r) => match r {
            Err(m) => move_failed(
                "Failed to copy "@ + src + " to "@ + dest + " (cross-device fallback): "@ + m@,
                s,
                a,
            ),
            Ok(_) => {
                &&& move_goes_on(state, MovePhase::RemovingSource, s)
                &&& a matches MoveAction::RemoveSource(x)
                &&& x@ == src
            },
        },
    }
}

impl MoveState {
    /// While a source is being moved, it is one of the sources.
    pub open spec fn wf(&self) -> bool {
        (self.phase != MovePhase::Start && self.phase != MovePhase::CreatingDir && self.phase
            != MovePhase::Done) ==> self.index < self.sources@.len()
    }

    /// A move of `sources` into `dest_dir` about to start.
    pub fn new(sources: Vec<String>, dest_dir: String, behavior: OverwriteBehavior) -> (s: MoveState)
        ensures
            s.phase == MovePhase::Start,
            s.sources == sources,
            s.dest_dir == dest_dir,
            s.behavior == behavior,
            s.moved@.len() == 0,
            s.wf(),
    {
        MoveState {
            phase: MovePhase::Start,
            sources,
            dest_dir,
            behavior,
            index: 0,
            dest: String::new(),
            moved: Vec::new(),
        }
    }

    /// Whether `event` is the outcome this move waits for.
    pub fn accepts(&self, event: &MoveEvent) -> (b: bool)
        ensures
            b == move_accepts(self.phase, *event),
    {
        match event {
            MoveEvent::Begin => self.phase == MovePhase::Start,
            MoveEvent::DirCreated(_) => self.phase == MovePhase::CreatingDir,
            MoveEvent::Exists(_) => self.phase == MovePhase::CheckingSource || self.phase
                == MovePhase::CheckingDest,
            MoveEvent::Removed(_) => self.phase == MovePhase::RemovingDest || self.phase
                == MovePhase::RemovingSource,
            MoveEvent::Renamed(_) => self.phase == MovePhase::Renaming,
            MoveEvent::Copied(_) => self.phase == MovePhase::Copying,
        }
    }
}

/// Goes on with source `next`, or ends with `moved` after the last.
fn next_source(state: MoveState, next: usize, moved: Vec<String>) -> (r: (MoveState, MoveAction))
    requires
        next <= state.sources@.len(),
    ensures
        next_source_planned(state, next as int, moved@, r.0, r.1),
        r.0.wf(),
{
    if next < state.sources.len() {
        let p = state.sources[next].clone();
        (
            MoveState { phase: MovePhase::CheckingSource, index: next, moved, ..state },
            MoveAction::CheckSource(p),
        )
    } else {
        (MoveState { phase: MovePhase::Done, moved: Vec::new(), ..state }, MoveAction::Finish(Ok(moved)))
    }
}

/// Goes on with the source after the current one.
fn advance(state: MoveState, moved: Vec<String>) -> (r: (MoveState, MoveAction))
    requires
        state.index < state.sources@.len(),
    ensures
        next_source_planned(state, state.index + 1, moved@, r.0, r.1),
        r.0.wf(),
{
    let count: usize = state.sources.len();
    let next: usize = if state.index < count {
        state.index + 1
    } else {
        count
    };
    next_source(state, next, moved)
}

/// A move stopped by a file-move error with `message`.
fn move_error(state: MoveState, message: Vec<char>) -> (r: (MoveState, MoveAction))
    ensures
        move_failed(message@, r.0, r.1),
        r.0.wf(),
{
    (
        MoveState { phase: MovePhase::Done, ..state },
        MoveAction::Finish(Err(TaggingError::FileMove(string_of(message.as_slice())))),
    )
}

/// One step of moving finished source files; see `move_next`.
pub fn move_step(state: MoveState, event: MoveEvent) -> (r: (MoveState, MoveAction))
    requires
        state.wf(),
        move_accepts(state.phase, event),
    ensures
        move_next(state, event, r.0, r.1),
        r.0.wf(),
{
    match event {
        MoveEvent::Begin => {
            let d = state.dest_dir.clone();
            (MoveState { phase: MovePhase::CreatingDir, ..state }, MoveAction::CreateDir(d))
        },
        MoveEvent::DirCreated(r) => match r {
            Err(e) => (MoveState { phase: MovePhase::Done, ..state }, MoveAction::Finish(Err(TaggingError::Io(e)))),
            Ok(_) => {
                let none: Vec<String> = Vec::new();
                assert(none@ =~= Seq::<String>::empty());
                next_source(state, 0, none)
            },
        },
        MoveEvent::Exists(b) => {
            if state.phase == MovePhase::CheckingSource {
                if !b {
                    let moved = state.moved.clone();
                    return advance(state, moved);
                }
                let dest = move_destination(state.dest_dir.as_str(), state.sources[state.index].as_str());
                match dest {
                    Err(e) => (MoveState { phase: MovePhase::Done, ..state }, MoveAction::Finish(Err(e))),
                    Ok(d) => {
                        let target = d.clone();
                        (
                            MoveState { phase: MovePhase::CheckingDest, dest: d, ..state },
                            MoveAction::CheckDest(target),
                        )
                    },
                }
            } else {
                let src = state.sources[state.index].clone();
                match plan_move(true, b, state.behavior) {
                    MoveStep::Move => {
                        let dest = state.dest.clone();
                        (MoveState { phase: MovePhase::Renaming, ..state }, MoveAction::Rename(src, dest))
                    },
                    MoveStep::ReplaceThenMove => {
                        let dest = state.dest.clone();
                        (MoveState { phase: MovePhase::RemovingDest, ..state }, MoveAction::RemoveDest(dest))
                    },
                    MoveStep::Refuse => {
                        let mut m: Vec<char> = chars_of("Destination already exists: ");
                        extend_str(&mut m, state.dest.as_str());
                        move_error(state, m)
                    },
                    _ => {
                        let moved = state.moved.clone();
                        advance(state, moved)
                    },
                }
            }
        },
        MoveEvent::Removed(r) => {
            let src = state.sources[state.index].clone();
            if state.phase == MovePhase::RemovingDest {
                match r {
                    Err(e) => {
                        let mut m: Vec<char> = chars_of("Failed to remove existing destination ");
                        extend_str(&mut m, state.dest.as_str());
                        extend_str(&mut m, ": ");
                        extend_str(&mut m, e.as_str());
                        move_error(state, m)
                    },
                    Ok(_) => {
                        let dest = state.dest.clone();
                        (MoveState { phase: MovePhase::Renaming, ..state }, MoveAction::Rename(src, dest))
                    },
                }
            } else {
                match r {
                    Err(e) => {
                        let mut m: Vec<char> = chars_of("Failed to remove source ");
                        extend_str(&mut m, src.as_str());
                        extend_str(&mut m, " after copy: ");
                        extend_str(&mut m, e.as_str());
                        move_error(state, m)
                    },
                    Ok(_) => {
                        let mut moved = state.moved.clone();
                        moved.push(state.dest.clone());
                        advance(state, moved)
                    },
                }
            }
        },
        MoveEvent::Renamed(r) => {
            let src = state.sources[state.index].clone();
            match r {
                Ok(_) => {
                    let mut moved = state.moved.clone();
                    moved.push(state.dest.clone());
                    advance(state, moved)
                },
                Err((code, e)) => {
                    if is_cross_device_code(code) {
                        let dest = state.dest.clone();
                        (MoveState { phase: MovePhase::Copying, ..state }, MoveAction::Copy(src, dest))
                    } else {
                        let mut m: Vec<char> = chars_of("Failed to move ");
                        extend_str(&mut m, src.as_str());
                        extend_str(&mut m, " to ");
                        extend_str(&mut m, state.dest.as_str());
                        extend_str(&mut m, ": ");
                        extend_str(&mut m, e.as_str());
                        move_error(state, m)
                    }
                },
            }
        },
        MoveEvent::Copied(r) => {
            let src = state.sources[state.index].clone();
            match r {
                Err(e) => {
                    let mut m: Vec<char> = chars_of("Failed to copy ");
                    extend_str(&mut m, src.as_str());
                    extend_str(&mut m, " to ");
                    extend_str(&mut m, state.dest.as_str());
                    extend_str(&mut m, " (cross-device fallback): ");
                    extend_str(&mut m, e.as_str());
                    move_error(state, m)
                },
                Ok(_) => (MoveState { phase: MovePhase::RemovingSource, ..state }, MoveAction::RemoveSource(src)),
            }
        },
    }
}

/// Law: whenever the book has narrators, the planned grouping begins with
/// `Narrator: ` and the narrators joined by `, `, whatever the file held; a
/// book with narrators and no series gets exactly that grouping.
pub proof fn lemma_narrators_in_grouping(m: BookMetadataView, existing: Option<Seq<char>>)
    requires
        m.narrators.len() > 0,
    ensures
        planned_grouping(m, existing) matches Some(g) && ("Narrator: "@ + join(m.narrators, ", "@)).is_prefix_of(g),
        m.series_name is None ==> planned_grouping(m, existing) == Some(
            "Narrator: "@ + join(m.narrators, ", "@),
        ),
{
    let n = "Narrator: "@ + join(m.narrators, ", "@);
    reveal_strlit("Narrator: ");
    assert(n.len() > 0);
    match m.series_name {
        Some(name) => {
            let g = n + " | Series: "@ + series_info(name, m.series_position);
            assert(g.subrange(0, n.len() as int) =~= n);
        },
        None => {
            assert(n.subrange(0, n.len() as int) =~= n);
        },
    }
}

} // verus!
