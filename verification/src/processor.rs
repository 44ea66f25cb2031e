//! The decisions of processing a batch of audiobooks: where each book is
//! written, which metadata id is looked up, which chapters are used, and
//! what a batch with failures amounts to.

use vstd::prelude::*;

use crate::api::MetadataError;
use crate::discovery::{capture_group_1, regex_capture, AudioFile, DiscoveryError};
use crate::duration::Duration;
use crate::merge::MergeError;
use crate::metadata::{chapter_views, opt_view, BookMetadata, BookMetadataView, Chapter, ChapterView};
use crate::paths::{file_name_of, join_path, parent_of, path_file_name, path_join, path_parent};
use crate::tagging::TaggingError;
use crate::text::{
    byte_len, chars_of, dec, dec_exec, extend_chars, extend_str, join, join_exec, replace, replace_exec,
    split, split_exec, string_of, string_views, trim, trim_chars, views,
};

verus! {

/// Errors of processing.
#[derive(Debug)]
pub enum ProcessorError {
    Discovery(DiscoveryError),
    Merge(MergeError),
    Api(MetadataError),
    Tagging(TaggingError),
    NoInputs,
    NoOutputDir,
    OutputDirCreation(String),
    FFmpegNotFound(String),
    ProcessingFailed { path: String, reason: String },
    CleanupFailed(String),
    GroupProcessingFailed { group: String, source: std::io::Error },
    PartialFailure { results: Vec<ProcessingResult>, detail: String },
}

impl ProcessorError {
    /// The error message.
    pub fn to_string(&self) -> (s: String)
        ensures
            self matches ProcessorError::Discovery(e) ==> exists|t: Seq<char>| s@
                == "Discovery error: "@ + t && crate::discovery::discovery_message(*e, t),
            self matches ProcessorError::Merge(e) ==> exists|t: Seq<char>| s@ == "Merge error: "@
                + t && crate::merge::merge_message(*e, t),
            self matches ProcessorError::Api(e) ==> exists|t: Seq<char>| s@ == "API error: "@ + t
                && crate::api::metadata_message(*e, t),
            self matches ProcessorError::Tagging(e) ==> exists|t: Seq<char>| s@ == "Tagging error: "@
                + t && crate::tagging::tagging_message(*e, t),
            self is NoInputs ==> s@ == "No input files provided"@,
            self is NoOutputDir ==> s@ == "No output directory specified"@,
            self matches ProcessorError::OutputDirCreation(m) ==> s@
                == "Failed to create output directory: "@ + m@,
            self matches ProcessorError::FFmpegNotFound(m) ==> s@ == "FFmpeg not found: "@ + m@,
            self matches ProcessorError::ProcessingFailed { path, reason } ==> s@
                == "Processing failed for "@ + path@ + ": "@ + reason@,
            self matches ProcessorError::CleanupFailed(m) ==> s@ == "Cleanup failed: "@ + m@,
            self matches ProcessorError::GroupProcessingFailed { group, .. } ==> s@
                == "Group processing failed: "@ + group@,
            self matches ProcessorError::PartialFailure { detail, .. } ==> s@
                == "Partial processing complete: "@ + detail@,
    {
        let mut out: Vec<char> = Vec::new();
        match self {
            ProcessorError::Discovery(e) => {
                extend_str(&mut out, "Discovery error: ");
                let t = e.to_string();
                extend_str(&mut out, t.as_str());
            },
            ProcessorError::Merge(e) => {
                extend_str(&mut out, "Merge error: ");
                let t = e.to_string();
                extend_str(&mut out, t.as_str());
            },
            ProcessorError::Api(e) => {
                extend_str(&mut out, "API error: ");
                let t = e.to_string();
                extend_str(&mut out, t.as_str());
            },
            ProcessorError::Tagging(e) => {
                extend_str(&mut out, "Tagging error: ");
                let t = e.to_string();
                extend_str(&mut out, t.as_str());
            },
            ProcessorError::NoInputs => {
                extend_str(&mut out, "No input files provided");
            },
            ProcessorError::NoOutputDir => {
                extend_str(&mut out, "No output directory specified");
            },
            ProcessorError::OutputDirCreation(m) => {
                extend_str(&mut out, "Failed to create output directory: ");
                extend_str(&mut out, m.as_str());
            },
            ProcessorError::FFmpegNotFound(m) => {
                extend_str(&mut out, "FFmpeg not found: ");
                extend_str(&mut out, m.as_str());
            },
            ProcessorError::ProcessingFailed { path, reason } => {
                extend_str(&mut out, "Processing failed for ");
                extend_str(&mut out, path.as_str());
                extend_str(&mut out, ": ");
                extend_str(&mut out, reason.as_str());
            },
            ProcessorError::CleanupFailed(m) => {
                extend_str(&mut out, "Cleanup failed: ");
                extend_str(&mut out, m.as_str());
            },
            ProcessorError::GroupProcessingFailed { group, .. } => {
                extend_str(&mut out, "Group processing failed: ");
                extend_str(&mut out, group.as_str());
            },
            ProcessorError::PartialFailure { detail, .. } => {
                extend_str(&mut out, "Partial processing complete: ");
                extend_str(&mut out, detail.as_str());
            },
        }
        string_of(out.as_slice())
    }
}

/// The outcome of processing one audiobook.
#[derive(Debug, Clone)]
pub struct ProcessingResult {
    /// The input files that were processed.
    pub input_files: Vec<String>,
    /// The file written.
    pub output_file: String,
    /// Whether metadata from a source was applied.
    pub metadata_applied: bool,
    /// Whether the source files were moved to the completed directory.
    pub files_moved: bool,
}

/// The stages of processing.
#[derive(Debug, Clone, Copy, PartialEq, Eq, Structural)]
pub enum ProcessingStage {
    Discovery,
    ApiLookup,
    Merging,
    Tagging,
    MovingFiles,
    Complete,
    Error,
}

/// The display name of a stage.
pub open spec fn stage_name(s: ProcessingStage) -> Seq<char> {
    match s {
        ProcessingStage::Discovery => "Discovery"@,
        ProcessingStage::ApiLookup => "API Lookup"@,
        ProcessingStage::Merging => "Merging"@,
        ProcessingStage::Tagging => "Tagging"@,
        ProcessingStage::MovingFiles => "Moving Files"@,
        ProcessingStage::Complete => "Complete"@,
        ProcessingStage::Error => "Error"@,
    }
}

impl ProcessingStage {
    /// The display name of the stage.
    pub fn to_string(&self) -> (s: String)
        ensures
            s@ == stage_name(*self),
    {
        match self {
            ProcessingStage::Discovery => "Discovery".to_owned(),
            ProcessingStage::ApiLookup => "API Lookup".to_owned(),
            ProcessingStage::Merging => "Merging".to_owned(),
            ProcessingStage::Tagging => "Tagging".to_owned(),
            ProcessingStage::MovingFiles => "Moving Files".to_owned(),
            ProcessingStage::Complete => "Complete".to_owned(),
            ProcessingStage::Error => "Error".to_owned(),
        }
    }
}

/// Progress of processing, as reported to a progress handler.
#[derive(Debug, Clone)]
pub struct ProcessingProgress {
    /// The current stage.
    pub stage: ProcessingStage,
    /// The file being processed, if any.
    pub current_file: Option<String>,
    /// Total files to process.
    pub total_files: usize,
    /// Files processed so far.
    pub completed_files: usize,
    /// What is happening.
    pub message: String,
}

/// The pattern of a metadata id in a folder name: ten capitals or digits in
/// square brackets.
pub const METADATA_ID_PATTERN: &'static str = "\\[([A-Z0-9]{10})\\]";

/// The metadata id a group name carries: what the id pattern captures.
pub fn extract_metadata_id(group_name: &str) -> (r: Option<String>)
    ensures
        opt_view(r) == regex_capture(METADATA_ID_PATTERN@, group_name@),
{
    capture_group_1(METADATA_ID_PATTERN, group_name)
}

/// The id to look a group up by: the configured one, else the one the group
/// name carries.
pub fn lookup_id(configured: Option<&str>, group_name: &str) -> (r: Option<String>)
    ensures
        opt_view(r) == match configured {
            Some(c) => Some(c@),
            None => regex_capture(METADATA_ID_PATTERN@, group_name@),
        },
{
    match configured {
        Some(c) => Some(c.to_owned()),
        None => extract_metadata_id(group_name),
    }
}

/// Chapters read from an input file as book chapters (milliseconds made
/// durations).
pub open spec fn file_chapter_views(cs: Seq<crate::chapters::Chapter>) -> Seq<ChapterView> {
    cs.map_values(
        |c: crate::chapters::Chapter|
            ChapterView {
                title: c.title@,
                start: (c.start_time as nat) * 1_000_000,
                duration: (c.duration as nat) * 1_000_000,
            },
    )
}

/// Chapters read from an input file, as book chapters.
pub fn chapters_from_file(file_chapters: &Vec<crate::chapters::Chapter>) -> (r: Vec<Chapter>)
    ensures
        chapter_views(r@) == file_chapter_views(file_chapters@),
{
    let mut r: Vec<Chapter> = Vec::new();
    let mut i: usize = 0;
    while i < file_chapters.len()
        invariant
            i <= file_chapters@.len(),
            chapter_views(r@) == file_chapter_views(file_chapters@.take(i as int)),
        decreases file_chapters.len() - i,
    {
        let c = &file_chapters[i];
        let ch = Chapter::new(
            c.title.as_str(),
            Duration::from_millis(c.start_time),
            Duration::from_millis(c.duration),
        );
        let ghost before = r@;
        r.push(ch);
        assert(chapter_views(r@) =~= chapter_views(before).push(ch@));
        assert(file_chapter_views(file_chapters@.take(i + 1)) =~= file_chapter_views(
            file_chapters@.take(i as int),
        ).push(file_chapter_views(file_chapters@)[i as int]));
        i = i + 1;
    }
    assert(file_chapters@.take(file_chapters.len() as int) =~= file_chapters@);
    r
}

/// The first name of a list, trimmed, or `Unknown`.
pub open spec fn first_or_unknown(v: Seq<Seq<char>>) -> Seq<char> {
    if v.len() > 0 {
        trim(v[0])
    } else {
        "Unknown"@
    }
}

/// An optional text trimmed, or the empty text.
pub open spec fn trimmed_or_empty(o: Option<Seq<char>>) -> Seq<char> {
    match o {
        Some(s) => trim(s),
        None => seq![],
    }
}

/// The template with each placeholder replaced by the (trimmed) value it
/// names, in this order: author, narrator, title, subtitle, series name,
/// series position, year. Missing values become empty.
pub open spec fn filled_template(t: Seq<char>, m: BookMetadataView) -> Seq<char> {
    let a = replace(t, "{author}"@, first_or_unknown(m.authors));
    let b = replace(a, "{narrator}"@, first_or_unknown(m.narrators));
    let c = replace(b, "{title}"@, trim(m.title));
    let d = replace(c, "{subtitle}"@, trimmed_or_empty(m.subtitle));
    let e = replace(d, "{series_name}"@, trimmed_or_empty(m.series_name));
    let f = replace(e, "{series_position}"@, trimmed_or_empty(m.series_position));
    replace(
        f,
        "{year}"@,
        match m.year {
            Some(y) => trim(dec(y as nat)),
            None => seq![],
        },
    )
}

/// The pieces of `parts`, trimmed, without those that are then empty.
pub open spec fn trimmed_nonempty(parts: Seq<Seq<char>>) -> Seq<Seq<char>>
    decreases parts.len(),
{
    if parts.len() == 0 {
        seq![]
    } else {
        let r = trimmed_nonempty(parts.drop_last());
        if trim(parts.last()).len() > 0 {
            r.push(trim(parts.last()))
        } else {
            r
        }
    }
}

/// The relative path a book is written under: the template filled in, its
/// `/`-separated segments trimmed, empty segments dropped.
pub open spec fn formatted_path(t: Seq<char>, m: BookMetadataView) -> Seq<char> {
    join(trimmed_nonempty(split(filled_template(t, m), '/')), "/"@)
}

/// The pieces trimmed, without the empty ones.
fn trimmed_nonempty_exec(parts: &Vec<Vec<char>>) -> (r: Vec<Vec<char>>)
    ensures
        views(r@) == trimmed_nonempty(views(parts@)),
{
    let mut r: Vec<Vec<char>> = Vec::new();
    let mut i: usize = 0;
    let ghost pv = views(parts@);
    assert(pv.take(0) =~= Seq::<Seq<char>>::empty());
    while i < parts.len()
        invariant
            i <= parts@.len(),
            pv == views(parts@),
            views(r@) == trimmed_nonempty(pv.take(i as int)),
        decreases parts.len() - i,
    {
        assert(pv.take(i + 1).drop_last() =~= pv.take(i as int));
        assert(pv.take(i + 1).last() == parts@[i as int]@);
        let t = trim_chars(parts[i].as_slice());
        if t.len() > 0 {
            let ghost before = r@;
            r.push(t);
            assert(views(r@) =~= views(before).push(trim(parts@[i as int]@)));
        }
        i = i + 1;
    }
    assert(pv.take(parts.len() as int) =~= pv);
    r
}

/// `s` with each occurrence of `p` replaced by `r`.
fn replace_text(s: Vec<char>, p: &str, r: &[char]) -> (out: Vec<char>)
    requires
        p@.len() > 0,
    ensures
        out@ == replace(s@, p@, r@),
{
    let pc = chars_of(p);
    replace_exec(s.as_slice(), pc.as_slice(), r)
}

/// The first of a list of names, trimmed, or `Unknown`.
fn first_or_unknown_exec(v: &Vec<String>) -> (r: Vec<char>)
    ensures
        r@ == first_or_unknown(string_views(v@)),
{
    if v.len() > 0 {
        let c = chars_of(v[0].as_str());
        trim_chars(c.as_slice())
    } else {
        chars_of("Unknown")
    }
}

/// An optional text trimmed, or nothing.
fn trimmed_or_empty_exec(o: &Option<String>) -> (r: Vec<char>)
    ensures
        r@ == trimmed_or_empty(opt_view(*o)),
{
    match o {
        Some(s) => {
            let c = chars_of(s.as_str());
            trim_chars(c.as_slice())
        },
        None => Vec::new(),
    }
}

/// The relative path a book is written under; see `formatted_path`.
pub fn format_path(template: &str, metadata: &BookMetadata) -> (r: String)
    ensures
        r@ == formatted_path(template@, metadata@),
{
    proof {
        reveal_strlit("{author}");
        reveal_strlit("{narrator}");
        reveal_strlit("{title}");
        reveal_strlit("{subtitle}");
        reveal_strlit("{series_name}");
        reveal_strlit("{series_position}");
        reveal_strlit("{year}");
    }
    let t = chars_of(template);
    let author = first_or_unknown_exec(&metadata.authors);
    let a = replace_text(t, "{author}", author.as_slice());
    let narrator = first_or_unknown_exec(&metadata.narrators);
    let b = replace_text(a, "{narrator}", narrator.as_slice());
    let tc = chars_of(metadata.title.as_str());
    let title = trim_chars(tc.as_slice());
    let c = replace_text(b, "{title}", title.as_slice());
    let subtitle = trimmed_or_empty_exec(&metadata.subtitle);
    let d = replace_text(c, "{subtitle}", subtitle.as_slice());
    let series = trimmed_or_empty_exec(&metadata.series_name);
    let e = replace_text(d, "{series_name}", series.as_slice());
    let position = trimmed_or_empty_exec(&metadata.series_position);
    let f = replace_text(e, "{series_position}", position.as_slice());
    let year: Vec<char> = match metadata.year {
        Some(y) => {
            let yd = dec_exec(y as u128);
            trim_chars(yd.as_slice())
        },
        None => Vec::new(),
    };
    let g = replace_text(f, "{year}", year.as_slice());
    assert(g@ == filled_template(template@, metadata@));
    let parts = split_exec(g.as_slice(), '/');
    let kept = trimmed_nonempty_exec(&parts);
    let sep = chars_of("/");
    let joined = join_exec(&kept, sep.as_slice());
    string_of(joined.as_slice())
}

/// Whether `sanitize_filename` removes `c` from a name: one of
/// `/ ? < > \\ : * | "` or a control character (U+0000 to U+001F, U+0080 to
/// U+009F).
pub open spec fn filename_illegal(c: char) -> bool {
    ||| c == '/'
    ||| c == '?'
    ||| c == '<'
    ||| c == '>'
    ||| c == '\\'
    ||| c == ':'
    ||| c == '*'
    ||| c == '|'
    ||| c == '"'
    ||| (c as u32) <= 0x1f
    ||| 0x80 <= (c as u32) <= 0x9f
}

/// `s` without the characters that `filename_illegal` names.
pub open spec fn without_illegal(s: Seq<char>) -> Seq<char>
    decreases s.len(),
{
    if s.len() == 0 {
        seq![]
    } else {
        let r = without_illegal(s.drop_last());
        if filename_illegal(s.last()) {
            r
        } else {
            r.push(s.last())
        }
    }
}

/// Whether `s` is one or more dots and nothing else.
pub open spec fn all_dots(s: Seq<char>) -> bool {
    s.len() > 0 && forall|i: int| 0 <= i < s.len() ==> s[i] == '.'
}

/// The longest prefix of `s` whose UTF-8 encoding takes at most `n` bytes.
pub open spec fn cut_to_bytes(s: Seq<char>, n: nat) -> Seq<char>
    decreases s.len(),
{
    if byte_len(s) <= n || s.len() == 0 {
        s
    } else {
        cut_to_bytes(s.drop_last(), n)
    }
}

/// What `sanitize_filename::sanitize` makes of a name with its default
/// options on a non-Windows target: the illegal and control characters
/// removed, a name of dots alone made empty, the result cut to 255 bytes at
/// a character boundary.
pub open spec fn sanitized(name: Seq<char>) -> Seq<char> {
    let a = without_illegal(name);
    let b = if all_dots(a) {
        seq![]
    } else {
        a
    };
    cut_to_bytes(b, 255)
}

/// Whether `c` names a folder or file inside the folder it is joined to:
/// it holds no `/` and is neither `.` nor `..`.
pub open spec fn safe_component(c: Seq<char>) -> bool {
    &&& forall|i: int| 0 <= i < c.len() ==> c[i] != '/'
    &&& c != "."@
    &&& c != ".."@
}

/// Calls `sanitize_filename::sanitize` with its default options; its
/// source (four regex replacements and a cut) does what `sanitized` states.
#[verifier::external_body]
fn sanitize_component(name: &str) -> (r: String)
    ensures
        r@ == sanitized(name@),
{
    sanitize_filename::sanitize(name)
}

/// No character that `without_illegal` keeps is illegal.
proof fn lemma_without_illegal(s: Seq<char>)
    ensures
        forall|i: int| 0 <= i < without_illegal(s).len() ==> !filename_illegal(#[trigger] without_illegal(s)[i]),
    decreases s.len(),
{
    if s.len() > 0 {
        let r = without_illegal(s.drop_last());
        lemma_without_illegal(s.drop_last());
        if !filename_illegal(s.last()) {
            assert forall|i: int| 0 <= i < r.push(s.last()).len() implies !filename_illegal(
                #[trigger] r.push(s.last())[i],
            ) by {
                if i < r.len() {
                    assert(r.push(s.last())[i] == r[i]);
                }
            }
        }
    }
}

/// A character takes at most four bytes.
proof fn lemma_byte_len_bound(s: Seq<char>)
    ensures
        byte_len(s) <= 4 * s.len(),
    decreases s.len(),
{
    if s.len() > 0 {
        lemma_byte_len_bound(s.drop_last());
    }
}

/// The cut is a prefix; it is the whole where that fits, and otherwise
/// within four bytes of the limit.
proof fn lemma_cut_to_bytes(s: Seq<char>, n: nat)
    ensures
        cut_to_bytes(s, n).len() <= s.len(),
        forall|i: int| 0 <= i < cut_to_bytes(s, n).len() ==> #[trigger] cut_to_bytes(s, n)[i] == s[i],
        byte_len(s) <= n ==> cut_to_bytes(s, n) == s,
        byte_len(s) > n ==> byte_len(cut_to_bytes(s, n)) + 4 > n,
    decreases s.len(),
{
    if byte_len(s) > n && s.len() > 0 {
        let t = s.drop_last();
        lemma_cut_to_bytes(t, n);
        assert forall|i: int| 0 <= i < cut_to_bytes(s, n).len() implies #[trigger] cut_to_bytes(s, n)[i] == s[i] by {
            assert(cut_to_bytes(s, n)[i] == t[i]);
        }
    }
}

/// A sanitized name is empty or a safe component.
proof fn lemma_sanitized_safe(name: Seq<char>)
    ensures
        sanitized(name).len() == 0 || safe_component(sanitized(name)),
{
    reveal_strlit(".");
    reveal_strlit("..");
    let a = without_illegal(name);
    let b = if all_dots(a) {
        seq![]
    } else {
        a
    };
    let t = cut_to_bytes(b, 255);
    lemma_without_illegal(name);
    lemma_cut_to_bytes(b, 255);
    assert forall|i: int| 0 <= i < t.len() implies t[i] != '/' by {
        assert(t[i] == b[i]);
        assert(!filename_illegal(a[i]));
    }
    if byte_len(b) > 255 {
        lemma_byte_len_bound(t);
        assert(t.len() > 2);
    } else if t.len() > 0 {
        assert(t == a);
        assert(!all_dots(a));
        if t.len() <= 2 {
            assert(exists|i: int| 0 <= i < a.len() && a[i] != '.');
        }
    }
}

/// The sanitized, non-empty segments of a relative path.
pub open spec fn path_components(formatted: Seq<char>) -> Seq<Seq<char>> {
    sanitized_nonempty(split(formatted, '/'))
}

/// The pieces sanitized, without those that are then empty.
pub open spec fn sanitized_nonempty(parts: Seq<Seq<char>>) -> Seq<Seq<char>>
    decreases parts.len(),
{
    if parts.len() == 0 {
        seq![]
    } else {
        let r = sanitized_nonempty(parts.drop_last());
        if sanitized(parts.last()).len() > 0 {
            r.push(sanitized(parts.last()))
        } else {
            r
        }
    }
}

/// `base` joined with each of `parts` in turn.
pub open spec fn joined_all(base: Seq<char>, parts: Seq<Seq<char>>) -> Seq<char>
    decreases parts.len(),
{
    if parts.len() == 0 {
        base
    } else {
        path_join(joined_all(base, parts.drop_last()), parts.last())
    }
}

/// The relative path of a book without metadata: the name of the folder of
/// its first file, else `output`.
pub open spec fn fallback_path(first: Seq<char>) -> Seq<char> {
    match path_parent(first) {
        Some(p) => match path_file_name(p) {
            Some(n) => n,
            None => "output"@,
        },
        None => "output"@,
    }
}

/// Where a book is written: under `output_dir`, in the folders of all but
/// the last component, as the last component with `.m4b` (or
/// `output.m4b` when there is no component).
pub open spec fn output_path_of(output_dir: Seq<char>, formatted: Seq<char>) -> Seq<char> {
    let cs = path_components(formatted);
    if cs.len() == 0 {
        path_join(output_dir, "output.m4b"@)
    } else {
        path_join(joined_all(output_dir, cs.drop_last()), cs.last() + ".m4b"@)
    }
}

/// The path a group of files is written to; see `output_path_of`. The
/// relative path comes from the metadata when there is some, else from the
/// folder of the first file.
pub fn determine_output_path(
    output_dir: Option<&str>,
    path_format: &str,
    files: &[AudioFile],
    metadata: Option<&BookMetadata>,
) -> (r: Result<String, ProcessorError>)
    ensures
        output_dir is None ==> r matches Err(ProcessorError::NoOutputDir),
        output_dir is Some && files@.len() == 0 ==> r matches Err(ProcessorError::NoInputs),
        files@.len() > 0 ==> match output_dir {
            Some(d) => {
                let rel = match metadata {
                    Some(m) => formatted_path(path_format@, m@),
                    None => fallback_path(files@[0].path@),
                };
                &&& r matches Ok(p) && p@ == output_path_of(d@, rel) && d@.is_prefix_of(p@)
                &&& forall|i: int|
                    0 <= i < path_components(rel).len() ==> safe_component(
                        #[trigger] path_components(rel)[i],
                    )
            },
            None => true,
        },
{
    let dir = match output_dir {
        Some(d) => d,
        None => {
            return Err(ProcessorError::NoOutputDir);
        },
    };
    if files.len() == 0 {
        return Err(ProcessorError::NoInputs);
    }
    let formatted: String = match metadata {
        Some(m) => format_path(path_format, m),
        None => {
            let fallback = match parent_of(files[0].path.as_str()) {
                Some(p) => match file_name_of(p.as_str()) {
                    Some(n) => n,
                    None => "output".to_owned(),
                },
                None => "output".to_owned(),
            };
            fallback
        },
    };
    let fc = chars_of(formatted.as_str());
    let pieces = split_exec(fc.as_slice(), '/');
    let mut comps: Vec<String> = Vec::new();
    let mut i: usize = 0;
    let ghost pv = views(pieces@);
    assert(pv.take(0) =~= Seq::<Seq<char>>::empty());
    while i < pieces.len()
        invariant
            i <= pieces@.len(),
            pv == views(pieces@),
            string_views(comps@) == sanitized_nonempty(pv.take(i as int)),
            forall|j: int|
                0 <= j < comps@.len() ==> (#[trigger] comps@[j])@.len() > 0 && safe_component(
                    comps@[j]@,
                ),
        decreases pieces.len() - i,
    {
        assert(pv.take(i + 1).drop_last() =~= pv.take(i as int));
        assert(pv.take(i + 1).last() == pieces@[i as int]@);
        let piece = string_of(pieces[i].as_slice());
        let s = sanitize_component(piece.as_str());
        proof {
            lemma_sanitized_safe(piece@);
        }
        let sc = chars_of(s.as_str());
        if sc.len() > 0 {
            let ghost before = comps@;
            comps.push(s);
            assert(string_views(comps@) =~= string_views(before).push(sanitized(pieces@[i as int]@)));
        }
        i = i + 1;
    }
    assert(pv.take(pieces.len() as int) =~= pv);
    let ghost cv = string_views(comps@);
    assert(cv == path_components(formatted@));
    assert forall|i: int| 0 <= i < cv.len() implies safe_component(#[trigger] cv[i]) by {
        assert(cv[i] == comps@[i]@);
    }
    let mut path = dir.to_owned();
    if comps.len() == 0 {
        proof {
            reveal_strlit("output.m4b");
        }
        return Ok(join_path(path.as_str(), "output.m4b"));
    }
    let last = comps.len() - 1;
    let mut k: usize = 0;
    assert(cv.take(0) =~= Seq::<Seq<char>>::empty());
    while k < last
        invariant
            k <= last,
            last + 1 == comps@.len(),
            cv == string_views(comps@),
            path@ == joined_all(dir@, cv.take(k as int)),
            dir@.is_prefix_of(path@),
            forall|j: int|
                0 <= j < comps@.len() ==> (#[trigger] comps@[j])@.len() > 0 && safe_component(
                    comps@[j]@,
                ),
        decreases last - k,
    {
        assert(cv.take(k + 1).drop_last() =~= cv.take(k as int));
        assert(cv.take(k + 1).last() == comps@[k as int]@);
        path = join_path(path.as_str(), comps[k].as_str());
        k = k + 1;
    }
    assert(cv.take(last as int) =~= cv.drop_last());
    let mut name: Vec<char> = chars_of(comps[last].as_str());
    extend_str(&mut name, ".m4b");
    let file_name = string_of(name.as_slice());
    Ok(join_path(path.as_str(), file_name.as_str()))
}

/// The message that details a batch with failures.
pub open spec fn failure_detail(succeeded: nat, total: nat, failed: Seq<(Seq<char>, Seq<char>)>) -> Seq<
    char,
> {
    dec(succeeded) + " of "@ + dec(total) + " groups succeeded; failed: "@ + join(
        failed.map_values(|f: (Seq<char>, Seq<char>)| f.0 + ": "@ + f.1),
        "; "@,
    )
}

/// A group name and error message as plain values.
pub open spec fn failure_views(v: Seq<(String, String)>) -> Seq<(Seq<char>, Seq<char>)> {
    v.map_values(|f: (String, String)| (f.0@, f.1@))
}

/// Calls `std::io::Error::other` with `message`; the error's text is not
/// stated.
#[verifier::external_body]
fn io_error_other(message: &str) -> std::io::Error {
    std::io::Error::other(message.to_owned())
}

/// Whether `r` is what a batch of `total` groups amounts to, given the
/// results of the groups that succeeded and the name and error of each group
/// that failed; see `batch_outcome`.
pub open spec fn batch_outcome_is(
    results: Seq<ProcessingResult>,
    failed: Seq<(String, String)>,
    total: nat,
    r: Result<Vec<ProcessingResult>, ProcessorError>,
) -> bool {
    &&& results.len() == 0 ==> (r matches Err(ProcessorError::GroupProcessingFailed { group, .. })
        && group@ == if failed.len() > 0 {
        failed[0].0@
    } else {
        Seq::<char>::empty()
    })
    &&& results.len() > 0 && failed.len() > 0 ==> (r matches Err(
        ProcessorError::PartialFailure { results: rs, detail },
    ) && rs@ == results && detail@ == failure_detail(results.len(), total, failure_views(failed)))
    &&& results.len() > 0 && failed.len() == 0 ==> (r matches Ok(rs) && rs@ == results)
}

/// What a batch amounts to, given the results of the groups that succeeded
/// and the name and error of each group that failed: a failure naming the
/// first failed group when none succeeded, a partial failure carrying the
/// results and a detail of the failures when some failed, else the results.
pub fn batch_outcome(
    results: Vec<ProcessingResult>,
    failed: Vec<(String, String)>,
    total_groups: usize,
) -> (r: Result<Vec<ProcessingResult>, ProcessorError>)
    ensures
        batch_outcome_is(results@, failed@, total_groups as nat, r),
{
    if results.len() == 0 {
        let group = if failed.len() > 0 {
            failed[0].0.clone()
        } else {
            String::new()
        };
        return Err(
            ProcessorError::GroupProcessingFailed {
                group,
                source: io_error_other("All groups failed to process"),
            },
        );
    }
    if failed.len() == 0 {
        return Ok(results);
    }
    let mut items: Vec<Vec<char>> = Vec::new();
    let mut i: usize = 0;
    let ghost fv = failure_views(failed@);
    while i < failed.len()
        invariant
            i <= failed@.len(),
            fv == failure_views(failed@),
            views(items@) == fv.take(i as int).map_values(
                |f: (Seq<char>, Seq<char>)| f.0 + ": "@ + f.1,
            ),
        decreases failed.len() - i,
    {
        let mut item: Vec<char> = chars_of(failed[i].0.as_str());
        extend_str(&mut item, ": ");
        extend_str(&mut item, failed[i].1.as_str());
        let ghost before = items@;
        items.push(item);
        assert(views(items@) =~= views(before).push(item@));
        assert(fv.take(i + 1).map_values(|f: (Seq<char>, Seq<char>)| f.0 + ": "@ + f.1)
            =~= fv.take(i as int).map_values(|f: (Seq<char>, Seq<char>)| f.0 + ": "@ + f.1).push(
            fv[i as int].0 + ": "@ + fv[i as int].1,
        ));
        i = i + 1;
    }
    assert(fv.take(failed.len() as int) =~= fv);
    let mut detail: Vec<char> = dec_exec(results.len() as u128);
    extend_str(&mut detail, " of ");
    let t = dec_exec(total_groups as u128);
    extend_chars(&mut detail, t.as_slice());
    extend_str(&mut detail, " groups succeeded; failed: ");
    let sep = chars_of("; ");
    let joined = join_exec(&items, sep.as_slice());
    extend_chars(&mut detail, joined.as_slice());
    Err(ProcessorError::PartialFailure { results, detail: string_of(detail.as_slice()) })
}

} // verus!
