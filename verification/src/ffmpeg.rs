//! What the library reads from FFmpeg: its version banner, its codec list,
//! probe results, and the concat list it is handed.

use vstd::prelude::*;

use crate::duration::Duration;
use crate::outside_types::{io_error_text, json_error_text, utf8_error_text};
use crate::text::{
    chars_of, contains, contains_exec, dec, dec_string, find_from, find_from_exec, join, join_exec,
    lines, lines_exec, starts_with, starts_with_exec, string_of, string_views, strings_of, tokens,
    tokens_exec, trim, trim_chars, views, byte_len, byte_len_capped, replace, replace_exec,
    extend_chars, extend_str, occurs_at, parse_u64, parse_u32, parse_unsigned,
};
use crate::metadata::opt_view;
use crate::merge::{first_missing, lemma_first_missing_prefix};

verus! {

/// Errors that can occur when working with FFmpeg.
#[derive(Debug)]
pub enum FFmpegError {
    BinaryNotFound(String),
    DiscoveryFailed,
    ExecutionFailed(String),
    NonZeroExit { code: i32, stderr: String },
    InvalidUtf8(std::string::FromUtf8Error),
    ParseError(String),
    JsonParseError(serde_json::Error),
    IoError(std::io::Error),
    FileNotFound(String),
    NoAudioStream(String),
    InvalidDuration(String),
}

/// Whether `s` is the message of `e`; the text of a UTF-8, JSON or I/O
/// error is std's or the outside crate's own.
pub open spec fn ffmpeg_message(e: FFmpegError, s: Seq<char>) -> bool {
    &&& (e is DiscoveryFailed ==>
        s == "FFmpeg binary not found in PATH or common locations"@)
    &&& (e matches FFmpegError::FileNotFound(p) ==>
        s == "File not found: "@ + p@)
    &&& (e matches FFmpegError::BinaryNotFound(p) ==>
        s == "FFmpeg binary not found at path: "@ + p@)
    &&& (e matches FFmpegError::ParseError(m) ==>
        s == "Failed to parse FFmpeg output: "@ + m@)
    &&& (e matches FFmpegError::NoAudioStream(p) ==>
        s == "No audio stream found in file: "@ + p@)
    &&& (e matches FFmpegError::ExecutionFailed(m) ==>
        s == "Failed to execute FFmpeg command: "@ + m@)
    &&& (e matches FFmpegError::NonZeroExit { code, stderr } ==>
        s == "FFmpeg returned non-zero exit code: "@ + crate::text::signed_dec(code as int) + ", stderr: "@ + stderr@)
    &&& (e matches FFmpegError::InvalidDuration(m) ==>
        s == "Invalid duration format: "@ + m@)
    &&& (e matches FFmpegError::InvalidUtf8(_) ==>
        exists|t: Seq<char>| s == "Invalid UTF-8 in FFmpeg output: "@ + t)
    &&& (e matches FFmpegError::JsonParseError(_) ==>
        exists|t: Seq<char>| s == "Failed to parse JSON output: "@ + t)
    &&& (e matches FFmpegError::IoError(_) ==>
        exists|t: Seq<char>| s == "IO error: "@ + t)
}

impl FFmpegError {
    /// The error message.
    pub fn to_string(&self) -> (s: String)
        ensures
            ffmpeg_message(*self, s@),
    {
        let mut s = String::new();
        match self {
            FFmpegError::BinaryNotFound(p) => {
                s.append("FFmpeg binary not found at path: ");
                s.append(p.as_str());
            },
            FFmpegError::DiscoveryFailed => {
                s.append("FFmpeg binary not found in PATH or common locations");
            },
            FFmpegError::ExecutionFailed(m) => {
                s.append("Failed to execute FFmpeg command: ");
                s.append(m.as_str());
            },
            FFmpegError::NonZeroExit { code, stderr } => {
                s.append("FFmpeg returned non-zero exit code: ");
                let d = crate::text::signed_dec_exec(*code as i64);
                let ds = string_of(d.as_slice());
                s.append(ds.as_str());
                s.append(", stderr: ");
                s.append(stderr.as_str());
            },
            FFmpegError::InvalidUtf8(e) => {
                s.append("Invalid UTF-8 in FFmpeg output: ");
                let t = utf8_error_text(e);
                s.append(t.as_str());
            },
            FFmpegError::ParseError(m) => {
                s.append("Failed to parse FFmpeg output: ");
                s.append(m.as_str());
            },
            FFmpegError::JsonParseError(e) => {
                s.append("Failed to parse JSON output: ");
                let t = json_error_text(e);
                s.append(t.as_str());
            },
            FFmpegError::IoError(e) => {
                s.append("IO error: ");
                let t = io_error_text(e);
                s.append(t.as_str());
            },
            FFmpegError::FileNotFound(p) => {
                s.append("File not found: ");
                s.append(p.as_str());
            },
            FFmpegError::NoAudioStream(p) => {
                s.append("No audio stream found in file: ");
                s.append(p.as_str());
            },
            FFmpegError::InvalidDuration(m) => {
                s.append("Invalid duration format: ");
                s.append(m.as_str());
            },
        }
        s
    }
}

/// Whether the file at `path` exists now (`std::path::Path::exists`).
#[verifier::external_body]
pub(crate) fn path_exists(path: &str) -> bool {
    std::path::Path::new(path).exists()
}

/// Audio metadata extracted from ffprobe.
#[derive(Debug, Clone, Default)]
pub struct AudioMetadata {
    pub duration: Option<Duration>,
    pub bitrate: Option<u64>,
    pub sample_rate: Option<u32>,
    pub channels: Option<u32>,
    pub codec: Option<String>,
    pub format_name: Option<String>,
    pub format_long_name: Option<String>,
    pub tags: Option<std::collections::HashMap<String, String>>,
}

/// FFmpeg library version information.
#[derive(Debug, Clone)]
pub struct LibraryVersion {
    pub name: String,
    pub current_version: String,
    pub compiled_version: String,
}

/// FFmpeg version information.
#[derive(Debug, Clone)]
pub struct FFmpegVersion {
    pub version: String,
    pub copyright: String,
    pub built_with: String,
    pub configuration: Vec<String>,
    pub libraries: Vec<LibraryVersion>,
}

/// The piece of `s` after the first occurrence of `p`, up to the next
/// occurrence or the end: what `s.split(p).nth(1)` gives.
pub open spec fn second_piece(s: Seq<char>, p: Seq<char>) -> Option<Seq<char>> {
    match find_from(s, p, 0) {
        None => None,
        Some(i) => {
            let b = i + p.len();
            match find_from(s, p, b) {
                None => Some(s.subrange(b, s.len() as int)),
                Some(j) => Some(s.subrange(b, j)),
            }
        },
    }
}

/// The first of `ls` that contains `p`.
pub open spec fn first_containing(ls: Seq<Seq<char>>, p: Seq<char>) -> Option<Seq<char>>
    decreases ls.len(),
{
    if ls.len() == 0 {
        None
    } else if contains(ls[0], p) {
        Some(ls[0])
    } else {
        first_containing(ls.drop_first(), p)
    }
}

/// The first of `ls` that starts with `p`.
pub open spec fn first_starting(ls: Seq<Seq<char>>, p: Seq<char>) -> Option<Seq<char>>
    decreases ls.len(),
{
    if ls.len() == 0 {
        None
    } else if starts_with(ls[0], p) {
        Some(ls[0])
    } else {
        first_starting(ls.drop_first(), p)
    }
}

/// The first position of `x` in `s`.
pub open spec fn index_of(s: Seq<Seq<char>>, x: Seq<char>) -> Option<int>
    decreases s.len(),
{
    if s.len() == 0 {
        None
    } else if s[0] == x {
        Some(0)
    } else {
        match index_of(s.drop_first(), x) {
            Some(i) => Some(i + 1),
            None => None,
        }
    }
}

/// A library line as plain values.
pub struct LibraryView {
    pub name: Seq<char>,
    pub current: Seq<char>,
    pub compiled: Seq<char>,
}

/// The library entry of one banner line, if it is one: trimmed, it starts
/// with `lib` and contains `" / "`; its words are the name, the current
/// version up to a lone `/`, and the compiled version after it.
pub open spec fn library_of_line(line: Seq<char>) -> Option<LibraryView> {
    let t = trim(line);
    if starts_with(t, "lib"@) && contains(t, " / "@) {
        let parts = tokens(t);
        match index_of(parts, "/"@) {
            Some(sep) => if sep >= 2 && sep < parts.len() && parts.len() - sep > 1 {
                Some(
                    LibraryView {
                        name: parts[0],
                        current: join(parts.subrange(1, sep), " "@),
                        compiled: join(parts.subrange(sep + 1, parts.len() as int), " "@),
                    },
                )
            } else {
                None
            },
            None => None,
        }
    } else {
        None
    }
}

/// The library entries of the banner lines, in order.
pub open spec fn libraries_of(ls: Seq<Seq<char>>) -> Seq<LibraryView>
    decreases ls.len(),
{
    if ls.len() == 0 {
        seq![]
    } else {
        let rest = libraries_of(ls.drop_last());
        match library_of_line(ls.last()) {
            Some(l) => rest.push(l),
            None => rest,
        }
    }
}

/// The version word of the banner's first line: the first word after
/// `"version "`, or `"unknown"`.
pub open spec fn version_word(first: Seq<char>) -> Seq<char> {
    match second_piece(first, "version "@) {
        Some(piece) => if tokens(piece).len() > 0 {
            tokens(piece)[0]
        } else {
            "unknown"@
        },
        None => "unknown"@,
    }
}

/// The configuration flags: the words after `"configuration:"` on the first
/// line that starts with it.
pub open spec fn configuration_of(ls: Seq<Seq<char>>) -> Seq<Seq<char>> {
    match first_starting(ls, "configuration:"@) {
        Some(l) => match second_piece(l, "configuration:"@) {
            Some(piece) => tokens(piece),
            None => seq![],
        },
        None => seq![],
    }
}

/// The trimmed first line of `ls` selected by `o`, or the empty text.
pub open spec fn trimmed_or_empty(o: Option<Seq<char>>) -> Seq<char> {
    match o {
        Some(l) => trim(l),
        None => seq![],
    }
}

/// The views of library entries.
pub open spec fn library_views(v: Seq<LibraryVersion>) -> Seq<LibraryView> {
    v.map_values(
        |l: LibraryVersion|
            LibraryView { name: l.name@, current: l.current_version@, compiled: l.compiled_version@ },
    )
}

/// The piece of `s` after the first occurrence of the non-empty `p`, up to
/// the next occurrence or the end.
pub fn second_piece_exec(s: &[char], p: &[char]) -> (r: Option<Vec<char>>)
    requires
        p@.len() > 0,
    ensures
        match r {
            Some(v) => second_piece(s@, p@) == Some(v@),
            None => second_piece(s@, p@) is None,
        },
{
    match find_from_exec(s, p, 0) {
        None => None,
        Some(i) => {
            assert(occurs_at(s@, p@, i as int));
            assert(i + p@.len() <= s.len());
            let b = i + p.len();
            let end = match find_from_exec(s, p, b) {
                None => s.len(),
                Some(j) => j,
            };
            let mut v: Vec<char> = Vec::new();
            let mut k: usize = b;
            while k < end
                invariant
                    b <= k <= end,
                    end <= s@.len(),
                    v@ =~= s@.subrange(b as int, k as int),
                decreases end - k,
            {
                v.push(s[k]);
                k = k + 1;
            }
            Some(v)
        },
    }
}

/// Index of the first of `ls` that contains `p`.
fn first_containing_exec(ls: &Vec<Vec<char>>, p: &[char]) -> (r: Option<usize>)
    ensures
        match r {
            Some(i) => i < ls@.len() && first_containing(views(ls@), p@) == Some(ls@[i as int]@),
            None => first_containing(views(ls@), p@) is None,
        },
{
    let mut i: usize = 0;
    assert(views(ls@).skip(0) =~= views(ls@));
    while i < ls.len()
        invariant
            i <= ls@.len(),
            first_containing(views(ls@), p@) == first_containing(views(ls@).skip(i as int), p@),
        decreases ls.len() - i,
    {
        assert(views(ls@).skip(i as int)[0] == ls@[i as int]@);
        if contains_exec(ls[i].as_slice(), p) {
            return Some(i);
        }
        assert(views(ls@).skip(i as int).drop_first() =~= views(ls@).skip(i + 1));
        i = i + 1;
    }
    None
}

/// Index of the first of `ls` that starts with `p`.
fn first_starting_exec(ls: &Vec<Vec<char>>, p: &[char]) -> (r: Option<usize>)
    ensures
        match r {
            Some(i) => i < ls@.len() && first_starting(views(ls@), p@) == Some(ls@[i as int]@),
            None => first_starting(views(ls@), p@) is None,
        },
{
    let mut i: usize = 0;
    assert(views(ls@).skip(0) =~= views(ls@));
    while i < ls.len()
        invariant
            i <= ls@.len(),
            first_starting(views(ls@), p@) == first_starting(views(ls@).skip(i as int), p@),
        decreases ls.len() - i,
    {
        assert(views(ls@).skip(i as int)[0] == ls@[i as int]@);
        if starts_with_exec(ls[i].as_slice(), p) {
            return Some(i);
        }
        assert(views(ls@).skip(i as int).drop_first() =~= views(ls@).skip(i + 1));
        i = i + 1;
    }
    None
}

/// The first position of `x` in `s`.
fn index_of_exec(s: &Vec<Vec<char>>, x: &[char]) -> (r: Option<usize>)
    ensures
        match r {
            Some(i) => index_of(views(s@), x@) == Some(i as int),
            None => index_of(views(s@), x@) is None,
        },
{
    let mut i: usize = 0;
    while i < s.len()
        invariant
            i <= s@.len(),
            forall|k: int| 0 <= k < i ==> views(s@)[k] != x@,
        decreases s.len() - i,
    {
        if s[i].len() == x.len() && starts_with_exec(s[i].as_slice(), x) {
            proof {
                assert(s@[i as int]@ =~= x@);
                lemma_index_of_first(views(s@), x@, i as int);
            }
            return Some(i);
        }
        proof {
            if s@[i as int]@ == x@ {
                assert(s@[i as int]@.subrange(0, x@.len() as int) =~= x@);
            }
        }
        i = i + 1;
    }
    proof {
        lemma_index_of_none(views(s@), x@);
    }
    None
}

/// `index_of` finds the first match.
proof fn lemma_index_of_first(s: Seq<Seq<char>>, x: Seq<char>, i: int)
    requires
        0 <= i < s.len(),
        s[i] == x,
        forall|k: int| 0 <= k < i ==> s[k] != x,
    ensures
        index_of(s, x) == Some(i),
    decreases i,
{
    if i > 0 {
        lemma_index_of_first(s.drop_first(), x, i - 1);
    }
}

/// `index_of` finds nothing when nothing matches.
proof fn lemma_index_of_none(s: Seq<Seq<char>>, x: Seq<char>)
    requires
        forall|k: int| 0 <= k < s.len() ==> s[k] != x,
    ensures
        index_of(s, x) is None,
    decreases s.len(),
{
    if s.len() > 0 {
        lemma_index_of_none(s.drop_first(), x);
    }
}

/// Copies of the vectors `v[a..b]`.
fn copy_range(v: &Vec<Vec<char>>, a: usize, b: usize) -> (r: Vec<Vec<char>>)
    requires
        a <= b <= v@.len(),
    ensures
        views(r@) == views(v@).subrange(a as int, b as int),
{
    let mut r: Vec<Vec<char>> = Vec::new();
    let mut i: usize = a;
    while i < b
        invariant
            a <= i <= b,
            b <= v@.len(),
            views(r@) =~= views(v@).subrange(a as int, i as int),
        decreases b - i,
    {
        let x = v[i].clone();
        let ghost before = r@;
        r.push(x);
        assert(views(r@) =~= views(before).push(x@));
        i = i + 1;
    }
    r
}

/// The library entry of one banner line, if it is one.
fn library_of_line_exec(line: &Vec<char>) -> (r: Option<LibraryVersion>)
    ensures
        match r {
            Some(l) => library_of_line(line@) == Some(
                LibraryView { name: l.name@, current: l.current_version@, compiled: l.compiled_version@ },
            ),
            None => library_of_line(line@) is None,
        },
{
    let t = trim_chars(line.as_slice());
    let lib = chars_of("lib");
    let sep_text = chars_of(" / ");
    if !(starts_with_exec(t.as_slice(), lib.as_slice()) && contains_exec(
        t.as_slice(),
        sep_text.as_slice(),
    )) {
        return None;
    }
    let parts = tokens_exec(t.as_slice());
    let slash = chars_of("/");
    match index_of_exec(&parts, slash.as_slice()) {
        Some(sep) => {
            if sep >= 2 && sep < parts.len() && parts.len() - sep > 1 {
                let cur = copy_range(&parts, 1, sep);
                let comp = copy_range(&parts, sep + 1, parts.len());
                let space = chars_of(" ");
                let current = join_exec(&cur, space.as_slice());
                let compiled = join_exec(&comp, space.as_slice());
                assert(views(parts@)[0] == parts@[0]@);
                Some(
                    LibraryVersion {
                        name: string_of(parts[0].as_slice()),
                        current_version: string_of(current.as_slice()),
                        compiled_version: string_of(compiled.as_slice()),
                    },
                )
            } else {
                None
            }
        },
        None => None,
    }
}

impl FFmpegVersion {
    /// Parses the banner that `ffmpeg -version` prints.
    pub fn parse(output: &str) -> (r: Result<FFmpegVersion, FFmpegError>)
        ensures
            lines(output@).len() == 0 <==> r is Err,
            r matches Err(e) ==> (e matches FFmpegError::ParseError(m) && m@ == "Empty version output"@),
            r matches Ok(v) ==> {
                let ls = lines(output@);
                &&& v.version@ == version_word(ls[0])
                &&& v.copyright@ == trimmed_or_empty(first_containing(ls, "Copyright"@))
                &&& v.built_with@ == trimmed_or_empty(first_starting(ls, "built with"@))
                &&& string_views(v.configuration@) == configuration_of(ls)
                &&& library_views(v.libraries@) == libraries_of(ls)
            },
    {
        let text = chars_of(output);
        let ls = lines_exec(text.as_slice());
        if ls.len() == 0 {
            return Err(FFmpegError::ParseError("Empty version output".to_owned()));
        }
        let ghost lv = views(ls@);
        assert(lv[0] == ls@[0]@);
        let version_marker = chars_of("version ");
        proof {
            reveal_strlit("version ");
            reveal_strlit("configuration:");
        }
        let version = match second_piece_exec(ls[0].as_slice(), version_marker.as_slice()) {
            Some(piece) => {
                let words = tokens_exec(piece.as_slice());
                if words.len() > 0 {
                    assert(views(words@)[0] == words@[0]@);
                    string_of(words[0].as_slice())
                } else {
                    "unknown".to_owned()
                }
            },
            None => "unknown".to_owned(),
        };
        let copyright_marker = chars_of("Copyright");
        let copyright = match first_containing_exec(&ls, copyright_marker.as_slice()) {
            Some(i) => {
                let t = trim_chars(ls[i].as_slice());
                string_of(t.as_slice())
            },
            None => String::new(),
        };
        let built_marker = chars_of("built with");
        let built_with = match first_starting_exec(&ls, built_marker.as_slice()) {
            Some(i) => {
                let t = trim_chars(ls[i].as_slice());
                string_of(t.as_slice())
            },
            None => String::new(),
        };
        let config_marker = chars_of("configuration:");
        let configuration: Vec<String> = match first_starting_exec(&ls, config_marker.as_slice()) {
            Some(i) => match second_piece_exec(ls[i].as_slice(), config_marker.as_slice()) {
                Some(piece) => {
                    let words = tokens_exec(piece.as_slice());
                    strings_of(&words)
                },
                None => {
                    let r: Vec<String> = Vec::new();
                    assert(string_views(r@) =~= Seq::<Seq<char>>::empty());
                    r
                },
            },
            None => {
                let r: Vec<String> = Vec::new();
                assert(string_views(r@) =~= Seq::<Seq<char>>::empty());
                r
            },
        };
        let mut libraries: Vec<LibraryVersion> = Vec::new();
        let mut i: usize = 0;
        assert(lv.take(0) =~= Seq::<Seq<char>>::empty());
        while i < ls.len()
            invariant
                i <= ls@.len(),
                lv == views(ls@),
                library_views(libraries@) == libraries_of(lv.take(i as int)),
            decreases ls.len() - i,
        {
            let ghost before = libraries@;
            assert(lv.take(i + 1).drop_last() =~= lv.take(i as int));
            assert(lv.take(i + 1).last() == ls@[i as int]@);
            match library_of_line_exec(&ls[i]) {
                Some(l) => {
                    libraries.push(l);
                    assert(library_views(libraries@) =~= library_views(before).push(
                        library_views(libraries@).last(),
                    ));
                },
                None => {},
            }
            i = i + 1;
        }
        assert(lv.take(ls.len() as int) =~= lv);
        Ok(FFmpegVersion { version, copyright, built_with, configuration, libraries })
    }
}

/// One line of a concat list: `file '<path>'`, with each single quote in the
/// path written as `'\''`.
pub open spec fn concat_line(path: Seq<char>) -> Seq<char> {
    "file '"@ + replace(path, seq!['\''], seq!['\'', '\\', '\'', '\'']) + seq!['\'', '\n']
}

/// The concat list for `paths`, one line each.
pub open spec fn concat_list(paths: Seq<Seq<char>>) -> Seq<char>
    decreases paths.len(),
{
    if paths.len() == 0 {
        seq![]
    } else {
        concat_list(paths.drop_last()) + concat_line(paths.last())
    }
}

/// Main FFmpeg handle: where the binaries are, and the version once read.
#[derive(Debug, Clone)]
pub struct FFmpeg {
    ffmpeg_path: String,
    ffprobe_path: String,
    version: Option<FFmpegVersion>,
}

/// The FFmpeg handle as plain values.
pub struct FFmpegView {
    pub ffmpeg_path: Seq<char>,
    pub ffprobe_path: Seq<char>,
    pub version: Option<FFmpegVersion>,
}

impl View for FFmpeg {
    type V = FFmpegView;

    closed spec fn view(&self) -> FFmpegView {
        FFmpegView {
            ffmpeg_path: self.ffmpeg_path@,
            ffprobe_path: self.ffprobe_path@,
            version: self.version,
        }
    }
}

/// What making a handle for the two binaries gives, given whether each
/// exists: the `ffmpeg` binary is reported first, then `ffprobe`; with both
/// there, a handle for them with no version read yet.
pub open spec fn new_outcome(
    ffmpeg_path: Seq<char>,
    ffprobe_path: Seq<char>,
    ffmpeg_exists: bool,
    ffprobe_exists: bool,
    r: Result<FFmpeg, FFmpegError>,
) -> bool {
    if !ffmpeg_exists {
        r matches Err(FFmpegError::BinaryNotFound(p)) && p@ == ffmpeg_path
    } else if !ffprobe_exists {
        r matches Err(FFmpegError::BinaryNotFound(p)) && p@ == ffprobe_path
    } else {
        r matches Ok(f) && f@.ffmpeg_path == ffmpeg_path && f@.ffprobe_path == ffprobe_path
            && f@.version is None
    }
}

/// What the concat-demuxer list for `files` gives, given whether each file
/// exists (`present[i]` for file `i`): an error for an empty list, then the
/// first missing file, else the list.
pub open spec fn concat_outcome(files: Seq<Seq<char>>, present: Seq<bool>, r: Result<String, FFmpegError>) -> bool {
    if files.len() == 0 {
        r matches Err(FFmpegError::ParseError(m)) && m@ == "Empty file list for concat"@
    } else {
        match first_missing(present) {
            Some(k) => r matches Err(FFmpegError::FileNotFound(p)) && p@ == files[k],
            None => r matches Ok(c) && c@ == concat_list(files),
        }
    }
}

/// The concat-demuxer list for `files`, given whether each exists; see
/// `concat_outcome`.
pub fn concat_file_list_given(files: &[String], present: &[bool]) -> (r: Result<String, FFmpegError>)
    requires
        present@.len() == files@.len(),
    ensures
        concat_outcome(string_views(files@), present@, r),
{
    if files.len() == 0 {
        return Err(FFmpegError::ParseError("Empty file list for concat".to_owned()));
    }
    let mut out: Vec<char> = Vec::new();
    let mut i: usize = 0;
    let ghost fv = string_views(files@);
    assert(fv.take(0) =~= Seq::<Seq<char>>::empty());
    assert(present@.take(0) =~= Seq::<bool>::empty());
    while i < files.len()
        invariant
            i <= files@.len(),
            present@.len() == files@.len(),
            fv == string_views(files@),
            out@ == concat_list(fv.take(i as int)),
            first_missing(present@.take(i as int)) is None,
        decreases files.len() - i,
    {
        assert(present@.take(i + 1).drop_last() =~= present@.take(i as int));
        let path = files[i].as_str();
        if !present[i] {
            proof {
                lemma_first_missing_prefix(present@, i as int);
            }
            assert(files@[i as int]@ == path@);
            return Err(FFmpegError::FileNotFound(path.to_owned()));
        }
        let line = concat_line_exec(path);
        extend_chars(&mut out, line.as_slice());
        assert(fv.take(i + 1).drop_last() =~= fv.take(i as int));
        assert(fv.take(i + 1).last() == files@[i as int]@);
        i = i + 1;
    }
    assert(fv.take(files.len() as int) =~= fv);
    assert(present@.take(present.len() as int) =~= present@);
    Ok(string_of(out.as_slice()))
}

impl FFmpeg {
    /// A handle for the given binaries, given whether each exists; see
    /// `new_outcome`.
    pub fn new_given(ffmpeg_path: &str, ffprobe_path: &str, ffmpeg_exists: bool, ffprobe_exists: bool) -> (r:
        Result<FFmpeg, FFmpegError>)
        ensures
            new_outcome(ffmpeg_path@, ffprobe_path@, ffmpeg_exists, ffprobe_exists, r),
    {
        if !ffmpeg_exists {
            return Err(FFmpegError::BinaryNotFound(ffmpeg_path.to_owned()));
        }
        if !ffprobe_exists {
            return Err(FFmpegError::BinaryNotFound(ffprobe_path.to_owned()));
        }
        Ok(FFmpeg { ffmpeg_path: ffmpeg_path.to_owned(), ffprobe_path: ffprobe_path.to_owned(), version: None })
    }

    /// A handle for the given binaries; both must exist, which is read from
    /// the file system when called (`ffprobe` only once `ffmpeg` is found).
    pub fn new(ffmpeg_path: &str, ffprobe_path: &str) -> (r: Result<FFmpeg, FFmpegError>)
        ensures
            exists|ffmpeg_exists: bool, ffprobe_exists: bool|
                new_outcome(ffmpeg_path@, ffprobe_path@, ffmpeg_exists, ffprobe_exists, r),
    {
        let ffmpeg_exists = path_exists(ffmpeg_path);
        let ffprobe_exists = if ffmpeg_exists {
            path_exists(ffprobe_path)
        } else {
            false
        };
        FFmpeg::new_given(ffmpeg_path, ffprobe_path, ffmpeg_exists, ffprobe_exists)
    }

    /// A handle for binaries already found (no existence check).
    pub fn with_paths(ffmpeg_path: String, ffprobe_path: String) -> (f: FFmpeg)
        ensures
            f@.ffmpeg_path == ffmpeg_path@,
            f@.ffprobe_path == ffprobe_path@,
            f@.version is None,
    {
        FFmpeg { ffmpeg_path, ffprobe_path, version: None }
    }

    /// The path of the `ffmpeg` binary.
    pub fn ffmpeg_path(&self) -> (p: &str)
        ensures
            p@ == self@.ffmpeg_path,
    {
        self.ffmpeg_path.as_str()
    }

    /// The path of the `ffprobe` binary.
    pub fn ffprobe_path(&self) -> (p: &str)
        ensures
            p@ == self@.ffprobe_path,
    {
        self.ffprobe_path.as_str()
    }

    /// The version read earlier, if any.
    pub fn cached_version(&self) -> (v: Option<&FFmpegVersion>)
        ensures
            v == match self@.version {
                Some(x) => Some(&x),
                None => None,
            },
    {
        match &self.version {
            Some(x) => Some(x),
            None => None,
        }
    }

    /// Remembers the version that was read.
    pub fn cache_version(&mut self, version: FFmpegVersion)
        ensures
            final(self)@ == (FFmpegView { version: Some(version), ..old(self)@ }),
    {
        self.version = Some(version);
    }

    /// The concat-demuxer list for `files`: one `file '<path>'` line each,
    /// single quotes escaped; see `concat_outcome`. Which files exist is read
    /// from the file system when called, up to the first missing one.
    pub fn create_concat_file_list(&self, files: &[String]) -> (r: Result<String, FFmpegError>)
        ensures
            exists|present: Seq<bool>|
                present.len() == files@.len() && concat_outcome(string_views(files@), present, r),
    {
        let mut present: Vec<bool> = Vec::new();
        let mut i: usize = 0;
        let mut all_so_far = true;
        while i < files.len()
            invariant
                i <= files@.len(),
                present@.len() == i,
            decreases files.len() - i,
        {
            let here = if all_so_far {
                path_exists(files[i].as_str())
            } else {
                false
            };
            all_so_far = all_so_far && here;
            present.push(here);
            i = i + 1;
        }
        concat_file_list_given(files, present.as_slice())
    }
}

/// One concat-list line for `path`.
pub fn concat_line_exec(path: &str) -> (r: Vec<char>)
    ensures
        r@ == concat_line(path@),
{
    let p = chars_of(path);
    let quote = ['\''];
    let escaped_quote = ['\'', '\\', '\'', '\''];
    let esc = replace_exec(p.as_slice(), &quote, &escaped_quote);
    assert(quote@ =~= seq!['\'']);
    assert(escaped_quote@ =~= seq!['\'', '\\', '\'', '\'']);
    let mut out: Vec<char> = Vec::new();
    extend_str(&mut out, "file '");
    extend_chars(&mut out, esc.as_slice());
    out.push('\'');
    out.push('\n');
    assert(out@ =~= concat_line(path@));
    out
}

/// The codec name of one line of `ffmpeg -codecs`, when the line lists an
/// audio codec: longer than eight bytes, starting with a space, `A` as its
/// fourth character, and at least two words (the name is the second).
pub open spec fn audio_codec_of_line(line: Seq<char>) -> Option<Seq<char>> {
    if byte_len(line) > 8 && line.len() > 3 && line[0] == ' ' && line[3] == 'A' && tokens(line).len()
        >= 2 {
        Some(tokens(line)[1])
    } else {
        None
    }
}

/// The audio codecs listed by `ffmpeg -codecs`, in order.
pub open spec fn audio_codecs_of(ls: Seq<Seq<char>>) -> Seq<Seq<char>>
    decreases ls.len(),
{
    if ls.len() == 0 {
        seq![]
    } else {
        let rest = audio_codecs_of(ls.drop_last());
        match audio_codec_of_line(ls.last()) {
            Some(c) => rest.push(c),
            None => rest,
        }
    }
}

/// The audio codec names in the output of `ffmpeg -codecs -hide_banner`.
pub fn parse_audio_codecs(stdout: &str) -> (r: Vec<String>)
    ensures
        string_views(r@) == audio_codecs_of(lines(stdout@)),
{
    let text = chars_of(stdout);
    let ls = lines_exec(text.as_slice());
    let ghost lv = views(ls@);
    let mut r: Vec<String> = Vec::new();
    let mut i: usize = 0;
    assert(lv.take(0) =~= Seq::<Seq<char>>::empty());
    assert(string_views(r@) =~= Seq::<Seq<char>>::empty());
    while i < ls.len()
        invariant
            i <= ls@.len(),
            lv == views(ls@),
            string_views(r@) == audio_codecs_of(lv.take(i as int)),
        decreases ls.len() - i,
    {
        let line = &ls[i];
        assert(lv.take(i + 1).drop_last() =~= lv.take(i as int));
        assert(lv.take(i + 1).last() == line@);
        let ghost before = r@;
        if byte_len_capped(line.as_slice(), 8) > 8 && line.len() > 3 && line[0] == ' ' && line[3]
            == 'A' {
            let words = tokens_exec(line.as_slice());
            if words.len() >= 2 {
                assert(views(words@)[1] == words@[1]@);
                r.push(string_of(words[1].as_slice()));
                assert(string_views(r@) =~= string_views(before).push(words@[1]@));
            }
        }
        i = i + 1;
    }
    assert(lv.take(ls.len() as int) =~= lv);
    r
}

/// Whether `codec` is among `codecs`.
pub fn has_codec_in(codecs: &Vec<String>, codec: &str) -> (b: bool)
    ensures
        b == exists|i: int| 0 <= i < codecs@.len() && #[trigger] codecs@[i]@ == codec@,
{
    let mut i: usize = 0;
    let wanted = codec.to_owned();
    while i < codecs.len()
        invariant
            i <= codecs@.len(),
            wanted@ == codec@,
            forall|k: int| 0 <= k < i ==> #[trigger] codecs@[k]@ != codec@,
        decreases codecs.len() - i,
    {
        if codecs[i] == wanted {
            return true;
        }
        i = i + 1;
    }
    false
}

/// The `format` section of an ffprobe report, with the duration already
/// read as seconds (`None` when absent or not a number).
#[derive(Debug, Clone)]
pub struct ProbeFormat {
    pub duration: Option<Duration>,
    pub bit_rate: Option<String>,
    pub format_name: Option<String>,
    pub format_long_name: Option<String>,
    pub tags: Option<std::collections::HashMap<String, String>>,
}

/// One stream of an ffprobe report, with the duration already read as
/// seconds (`None` when absent or not a number).
#[derive(Debug, Clone)]
pub struct ProbeStream {
    pub codec_type: String,
    pub codec_name: Option<String>,
    pub sample_rate: Option<String>,
    pub channels: Option<u32>,
    pub duration: Option<Duration>,
    pub bit_rate: Option<String>,
}

/// The value of an optional text read as an unsigned number that fits `max`.
pub open spec fn number_in(o: Option<Seq<char>>, max: nat) -> Option<nat> {
    match o {
        Some(t) => match parse_unsigned(t) {
            Some(n) => if n <= max {
                Some(n)
            } else {
                None
            },
            None => None,
        },
        None => None,
    }
}

/// Index of the first audio stream.
pub open spec fn first_audio(streams: Seq<ProbeStream>) -> Option<int>
    decreases streams.len(),
{
    if streams.len() == 0 {
        None
    } else if streams[0].codec_type@ == "audio"@ {
        Some(0)
    } else {
        match first_audio(streams.drop_first()) {
            Some(i) => Some(i + 1),
            None => None,
        }
    }
}

/// An optional text as a number that fits a `u64`.
fn number_u64(o: &Option<String>) -> (r: Option<u64>)
    ensures
        match r {
            Some(v) => number_in(opt_view(*o), u64::MAX as nat) == Some(v as nat),
            None => number_in(opt_view(*o), u64::MAX as nat) is None,
        },
{
    match o {
        Some(t) => {
            let v = chars_of(t.as_str());
            parse_u64(v.as_slice())
        },
        None => None,
    }
}

/// An optional text as a number that fits a `u32`.
fn number_u32(o: &Option<String>) -> (r: Option<u32>)
    ensures
        match r {
            Some(v) => number_in(opt_view(*o), u32::MAX as nat) == Some(v as nat),
            None => number_in(opt_view(*o), u32::MAX as nat) is None,
        },
{
    match o {
        Some(t) => {
            let v = chars_of(t.as_str());
            parse_u32(v.as_slice())
        },
        None => None,
    }
}

/// Audio metadata from a probe report: names, tags, duration and bit rate
/// from the format section; codec, channels and sample rate from the first
/// audio stream, which also supplies duration and bit rate when the format
/// lacks them.
pub fn assemble_metadata(format: Option<ProbeFormat>, streams: Option<Vec<ProbeStream>>) -> (m:
    AudioMetadata)
    ensures
        ({
            let fmt_duration = match format {
                Some(f) => f.duration,
                None => None,
            };
            let fmt_bitrate = match format {
                Some(f) => number_in(opt_view(f.bit_rate), u64::MAX as nat),
                None => None,
            };
            let audio = match streams {
                Some(s) => match first_audio(s@) {
                    Some(i) => Some(s@[i]),
                    None => None,
                },
                None => None,
            };
            &&& m.format_name == (match format {
                Some(f) => f.format_name,
                None => None,
            })
            &&& m.format_long_name == (match format {
                Some(f) => f.format_long_name,
                None => None,
            })
            &&& m.tags == (match format {
                Some(f) => f.tags,
                None => None,
            })
            &&& m.codec == (match audio {
                Some(a) => a.codec_name,
                None => None,
            })
            &&& m.channels == (match audio {
                Some(a) => a.channels,
                None => None,
            })
            &&& (match m.sample_rate {
                Some(v) => Some(v as nat),
                None => None,
            }) == (match audio {
                Some(a) => number_in(opt_view(a.sample_rate), u32::MAX as nat),
                None => None,
            })
            &&& m.duration == (match fmt_duration {
                Some(d) => Some(d),
                None => match audio {
                    Some(a) => a.duration,
                    None => None,
                },
            })
            &&& (match m.bitrate {
                Some(v) => Some(v as nat),
                None => None,
            }) == (match fmt_bitrate {
                Some(b) => Some(b),
                None => match audio {
                    Some(a) => number_in(opt_view(a.bit_rate), u64::MAX as nat),
                    None => None,
                },
            })
        }),
{
    let mut m = AudioMetadata {
        duration: None,
        bitrate: None,
        sample_rate: None,
        channels: None,
        codec: None,
        format_name: None,
        format_long_name: None,
        tags: None,
    };
    match format {
        Some(f) => {
            m.bitrate = number_u64(&f.bit_rate);
            m.duration = f.duration;
            m.format_name = f.format_name;
            m.format_long_name = f.format_long_name;
            m.tags = f.tags;
        },
        None => {},
    }
    match streams {
        Some(s) => {
            match first_audio_exec(&s) {
                Some(i) => {
                    let st = &s[i];
                    m.codec = st.codec_name.clone();
                    m.channels = st.channels;
                    m.sample_rate = number_u32(&st.sample_rate);
                    if m.duration.is_none() {
                        m.duration = st.duration;
                    }
                    if m.bitrate.is_none() {
                        m.bitrate = number_u64(&st.bit_rate);
                    }
                },
                None => {},
            }
        },
        None => {},
    }
    m
}

/// Index of the first audio stream.
fn first_audio_exec(s: &Vec<ProbeStream>) -> (r: Option<usize>)
    ensures
        match r {
            Some(i) => i < s@.len() && first_audio(s@) == Some(i as int),
            None => first_audio(s@) is None,
        },
{
    let mut i: usize = 0;
    let ghost sv = s@;
    assert(sv.skip(0) =~= sv);
    while i < s.len()
        invariant
            i <= sv.len(),
            sv == s@,
            first_audio(sv) == match first_audio(sv.skip(i as int)) {
                Some(k) => Some(k + i),
                None => None,
            },
        decreases s.len() - i,
    {
        assert(sv.skip(i as int)[0] == sv[i as int]);
        let audio_word = "audio".to_owned();
        if s[i].codec_type == audio_word {
            assert(first_audio(sv.skip(i as int)) == Some(0int));
            return Some(i);
        }
        assert(sv.skip(i as int).drop_first() =~= sv.skip(i + 1));
        i = i + 1;
    }
    assert(first_audio(sv.skip(i as int)) is None);
    None
}

/// The duration from probed metadata, or `NoAudioStream` for `path` when
/// there is none.
pub fn duration_or_missing(metadata: &AudioMetadata, path: &str) -> (r: Result<Duration, FFmpegError>)
    ensures
        metadata.duration matches Some(d) ==> r == Ok::<Duration, FFmpegError>(d),
        metadata.duration is None ==> (r matches Err(FFmpegError::NoAudioStream(p)) && p@ == path@),
{
    match metadata.duration {
        Some(d) => Ok(d),
        None => Err(FFmpegError::NoAudioStream(path.to_owned())),
    }
}

/// Calls `String::from_utf8`: the text when the bytes are valid UTF-8,
/// else the conversion error.
#[verifier::external_body]
fn utf8_string(bytes: Vec<u8>) -> (r: Result<String, std::string::FromUtf8Error>)
    ensures
        r is Ok <==> vstd::utf8::valid_utf8(bytes@),
        r matches Ok(s) ==> s@ == vstd::utf8::decode_utf8(bytes@),
{
    String::from_utf8(bytes)
}

/// The error for an FFmpeg run that exited unsuccessfully: its exit code
/// (-1 when it has none) and its standard error read as lossy UTF-8.
pub fn exit_error(code: Option<i32>, stderr: &[u8]) -> (e: FFmpegError)
    ensures
        e matches FFmpegError::NonZeroExit { code: c, stderr: t } && c == match code {
            Some(x) => x,
            None => -1i32,
        } && t@ == crate::chapters::utf8_lossy(stderr@),
{
    let c: i32 = match code {
        Some(x) => x,
        None => -1,
    };
    FFmpegError::NonZeroExit { code: c, stderr: crate::chapters::decode_lossy(stderr) }
}

/// What a finished run that only has to succeed means.
pub fn check_outcome(success: bool, code: Option<i32>, stderr: &[u8]) -> (r: Result<(), FFmpegError>)
    ensures
        success ==> r is Ok,
        !success ==> (r matches Err(FFmpegError::NonZeroExit { code: c, stderr: t }) && c
            == match code {
            Some(x) => x,
            None => -1i32,
        } && t@ == crate::chapters::utf8_lossy(stderr@)),
{
    if success {
        Ok(())
    } else {
        Err(exit_error(code, stderr))
    }
}

/// The standard output of a finished run as text: the exit error when the
/// run failed, the UTF-8 error when the output is not UTF-8.
pub fn stdout_text(success: bool, code: Option<i32>, stdout: Vec<u8>, stderr: &[u8]) -> (r: Result<
    String,
    FFmpegError,
>)
    ensures
        !success ==> (r matches Err(FFmpegError::NonZeroExit { code: c, stderr: t }) && c
            == match code {
            Some(x) => x,
            None => -1i32,
        } && t@ == crate::chapters::utf8_lossy(stderr@)),
        success && !vstd::utf8::valid_utf8(stdout@) ==> r matches Err(FFmpegError::InvalidUtf8(_)),
        success && vstd::utf8::valid_utf8(stdout@) ==> (r matches Ok(t) && t@
            == vstd::utf8::decode_utf8(stdout@)),
{
    if !success {
        return Err(exit_error(code, stderr));
    }
    match utf8_string(stdout) {
        Ok(t) => Ok(t),
        Err(e) => Err(FFmpegError::InvalidUtf8(e)),
    }
}

/// The directories FFmpeg is looked for in when it is not on the `PATH`.
pub open spec fn common_dirs() -> Seq<Seq<char>> {
    seq!["/usr/bin"@, "/usr/local/bin"@, "/opt/homebrew/bin"@, "/opt/local/bin"@, "/usr/lib/ffmpeg/bin"@]
}

/// The `ffmpeg` and `ffprobe` paths of each common directory, in order.
pub fn common_candidates() -> (r: Vec<(String, String)>)
    ensures
        r@.len() == common_dirs().len(),
        forall|k: int|
            0 <= k < r@.len() ==> (#[trigger] r@[k]).0@ == crate::paths::path_join(
                common_dirs()[k],
                "ffmpeg"@,
            ) && r@[k].1@ == crate::paths::path_join(common_dirs()[k], "ffprobe"@),
{
    let dirs: [&'static str; 5] = [
        "/usr/bin",
        "/usr/local/bin",
        "/opt/homebrew/bin",
        "/opt/local/bin",
        "/usr/lib/ffmpeg/bin",
    ];
    let ghost dv = common_dirs();
    assert(dirs@.map_values(|d: &'static str| d@) =~= dv);
    let mut r: Vec<(String, String)> = Vec::new();
    let mut i: usize = 0;
    while i < 5
        invariant
            i <= 5,
            dirs@.map_values(|d: &'static str| d@) == dv,
            dv == common_dirs(),
            r@.len() == i,
            forall|k: int|
                0 <= k < i ==> (#[trigger] r@[k]).0@ == crate::paths::path_join(dv[k], "ffmpeg"@)
                    && r@[k].1@ == crate::paths::path_join(dv[k], "ffprobe"@),
        decreases 5 - i,
    {
        let d = dirs[i];
        assert(dv[i as int] == d@);
        let f = crate::paths::join_path(d, "ffmpeg");
        let p = crate::paths::join_path(d, "ffprobe");
        r.push((f, p));
        i = i + 1;
    }
    r
}

/// The first index whose entry is true.
pub open spec fn first_true(s: Seq<bool>) -> Option<int>
    decreases s.len(),
{
    if s.len() == 0 {
        None
    } else {
        match first_true(s.drop_last()) {
            Some(k) => Some(k),
            None => if s.last() {
                Some(s.len() - 1)
            } else {
                None
            },
        }
    }
}

impl FFmpeg {
    /// The FFmpeg to use: the binaries found on the `PATH` when both were,
    /// else the first candidate pair whose binaries both exist
    /// (`present[k]` for candidate `k`), else a discovery failure.
    pub fn choose_binaries(
        found_in_path: Option<(String, String)>,
        candidates: Vec<(String, String)>,
        present: &[bool],
    ) -> (r: Result<FFmpeg, FFmpegError>)
        requires
            present@.len() == candidates@.len(),
        ensures
            match found_in_path {
                Some(f) => r matches Ok(x) && x@.ffmpeg_path == f.0@ && x@.ffprobe_path == f.1@
                    && x@.version is None,
                None => match first_true(present@) {
                    Some(k) => r matches Ok(x) && x@.ffmpeg_path == candidates@[k].0@
                        && x@.ffprobe_path == candidates@[k].1@ && x@.version is None,
                    None => r matches Err(FFmpegError::DiscoveryFailed),
                },
            },
    {
        if found_in_path.is_some() {
            let pair = found_in_path.unwrap();
            return Ok(FFmpeg::with_paths(pair.0, pair.1));
        }
        let mut cands = candidates;
        let ghost cv = cands@;
        let mut i: usize = 0;
        assert(present@.take(0) =~= Seq::<bool>::empty());
        while i < present.len()
            invariant
                i <= present@.len(),
                present@.len() == cands@.len(),
                cands@ == cv,
                cv == candidates@,
                found_in_path is None,
                first_true(present@.take(i as int)) is None,
            decreases present.len() - i,
        {
            assert(present@.take(i + 1).drop_last() =~= present@.take(i as int));
            if present[i] {
                proof {
                    lemma_first_true_prefix(present@, i as int);
                }
                let pair = cands.swap_remove(i);
                return Ok(FFmpeg::with_paths(pair.0, pair.1));
            }
            i = i + 1;
        }
        assert(present@.take(present.len() as int) =~= present@);
        Err(FFmpegError::DiscoveryFailed)
    }
}

/// The first true entry is at `i` when none precedes it.
proof fn lemma_first_true_prefix(s: Seq<bool>, i: int)
    requires
        0 <= i < s.len(),
        first_true(s.take(i)) is None,
        s[i],
    ensures
        first_true(s) == Some(i),
    decreases s.len(),
{
    if i < s.len() - 1 {
        assert(s.drop_last().take(i) =~= s.take(i));
        lemma_first_true_prefix(s.drop_last(), i);
    } else {
        assert(s.drop_last() =~= s.take(i));
    }
}

/// The path a locator program printed: its standard output, lossy UTF-8,
/// trimmed, when the program succeeded.
pub fn located_path(success: bool, stdout: &[u8]) -> (r: Option<String>)
    ensures
        !success ==> r is None,
        success ==> (r matches Some(p) && p@ == trim(crate::chapters::utf8_lossy(stdout@))),
{
    if !success {
        return None;
    }
    let t = crate::chapters::decode_lossy(stdout);
    Some(crate::text::trim_str(t.as_str()))
}

} // verus!
