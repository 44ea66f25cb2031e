//! Merge planning: whether files can be joined without re-encoding, what
//! bitrate to encode at, the FFmpeg arguments of a merge, and what a finished
//! FFmpeg run means.

use vstd::prelude::*;

use crate::discovery::{captures_of, regex_captures, AudioFile, AudioFormat};
use crate::duration::Duration;
use crate::metadata::opt_view;
use crate::ffmpeg::{path_exists, AudioMetadata, FFmpeg, FFmpegError};
use crate::outside_types::io_error_text;
use crate::text::{
    chars_of, dec, dec_string, digits_value, extend_chars, extend_str, is_digit, join, join_exec,
    parse_u64, parse_unsigned, split, split_exec, string_of, string_views, unsigned_digits,
    views,
};

verus! {

/// Errors that can occur during merge operations.
#[derive(Debug)]
pub enum MergeError {
    FFmpeg(FFmpegError),
    Io(std::io::Error),
    NoInputFiles,
    NoOutputPath,
    TempFileCreation(String),
    BitrateDetectionFailed,
    OperationFailed(String),
    ProgressParseError(String),
    IncompatibleFormats(Vec<AudioFormat>),
}

/// The name `Debug` gives a format.
pub open spec fn format_name(f: AudioFormat) -> Seq<char> {
    match f {
        AudioFormat::MP3 => "MP3"@,
        AudioFormat::M4A => "M4A"@,
        AudioFormat::M4B => "M4B"@,
    }
}

/// A list of formats as `Debug` writes it: `[MP3, M4A]`.
pub open spec fn formats_debug(fs: Seq<AudioFormat>) -> Seq<char> {
    seq!['['] + join(fs.map_values(|f: AudioFormat| format_name(f)), ", "@) + seq![']']
}

/// `formats_debug`, computed.
fn formats_debug_exec(fs: &Vec<AudioFormat>) -> (r: Vec<char>)
    ensures
        r@ == formats_debug(fs@),
{
    let mut names: Vec<Vec<char>> = Vec::new();
    let mut i: usize = 0;
    while i < fs.len()
        invariant
            i <= fs@.len(),
            views(names@) == fs@.take(i as int).map_values(|f: AudioFormat| format_name(f)),
        decreases fs.len() - i,
    {
        let n = fs[i].to_string();
        let ghost before = names@;
        names.push(chars_of(n.as_str()));
        assert(views(names@) =~= views(before).push(n@));
        assert(fs@.take(i + 1).map_values(|f: AudioFormat| format_name(f)) =~= fs@.take(
            i as int,
        ).map_values(|f: AudioFormat| format_name(f)).push(format_name(fs@[i as int])));
        i = i + 1;
    }
    assert(fs@.take(fs.len() as int) =~= fs@);
    let sep = chars_of(", ");
    let body = join_exec(&names, sep.as_slice());
    let mut out: Vec<char> = Vec::new();
    out.push('[');
    extend_chars(&mut out, body.as_slice());
    out.push(']');
    assert(out@ =~= formats_debug(fs@));
    out
}

/// Whether `s` is the message of `e`; the text of an I/O error is std's
/// own.
pub open spec fn merge_message(e: MergeError, s: Seq<char>) -> bool {
    &&& (e is NoInputFiles ==>
        s == "No input files provided"@)
    &&& (e is NoOutputPath ==>
        s == "Output path not specified"@)
    &&& (e is BitrateDetectionFailed ==>
        s == "Failed to detect bitrate from source files"@)
    &&& (e matches MergeError::TempFileCreation(m) ==>
        s == "Failed to create temporary file: "@ + m@)
    &&& (e matches MergeError::OperationFailed(m) ==>
        s == "Merge operation failed: "@ + m@)
    &&& (e matches MergeError::ProgressParseError(m) ==>
        s == "Progress parsing error: "@ + m@)
    &&& (e matches MergeError::IncompatibleFormats(v) ==>
        s == "Incompatible formats for copy mode: expected M4A/M4B, found "@ + formats_debug(v@))
    &&& (e matches MergeError::FFmpeg(f) ==>
        exists|t: Seq<char>| s == "FFmpeg error: "@ + t && crate::ffmpeg::ffmpeg_message(f, t))
    &&& (e matches MergeError::Io(_) ==>
        exists|t: Seq<char>| s == "IO error: "@ + t)
}

impl MergeError {
    /// The error message.
    pub fn to_string(&self) -> (s: String)
        ensures
            merge_message(*self, s@),
    {
        let mut out: Vec<char> = Vec::new();
        match self {
            MergeError::FFmpeg(e) => {
                extend_str(&mut out, "FFmpeg error: ");
                let t = e.to_string();
                extend_str(&mut out, t.as_str());
            },
            MergeError::Io(e) => {
                extend_str(&mut out, "IO error: ");
                let t = io_error_text(e);
                extend_str(&mut out, t.as_str());
            },
            MergeError::NoInputFiles => {
                extend_str(&mut out, "No input files provided");
            },
            MergeError::NoOutputPath => {
                extend_str(&mut out, "Output path not specified");
            },
            MergeError::TempFileCreation(m) => {
                extend_str(&mut out, "Failed to create temporary file: ");
                extend_str(&mut out, m.as_str());
            },
            MergeError::BitrateDetectionFailed => {
                extend_str(&mut out, "Failed to detect bitrate from source files");
            },
            MergeError::OperationFailed(m) => {
                extend_str(&mut out, "Merge operation failed: ");
                extend_str(&mut out, m.as_str());
            },
            MergeError::ProgressParseError(m) => {
                extend_str(&mut out, "Progress parsing error: ");
                extend_str(&mut out, m.as_str());
            },
            MergeError::IncompatibleFormats(v) => {
                extend_str(&mut out, "Incompatible formats for copy mode: expected M4A/M4B, found ");
                let d = formats_debug_exec(v);
                extend_chars(&mut out, d.as_slice());
            },
        }
        string_of(out.as_slice())
    }
}

impl From<FFmpegError> for MergeError {
    fn from(e: FFmpegError) -> (r: MergeError) {
        MergeError::FFmpeg(e)
    }
}

impl vstd::std_specs::convert::FromSpecImpl<FFmpegError> for MergeError {
    open spec fn obeys_from_spec() -> bool {
        true
    }

    open spec fn from_spec(e: FFmpegError) -> MergeError {
        MergeError::FFmpeg(e)
    }
}

impl From<std::io::Error> for MergeError {
    fn from(e: std::io::Error) -> (r: MergeError) {
        MergeError::Io(e)
    }
}

impl vstd::std_specs::convert::FromSpecImpl<std::io::Error> for MergeError {
    open spec fn obeys_from_spec() -> bool {
        true
    }

    open spec fn from_spec(e: std::io::Error) -> MergeError {
        MergeError::Io(e)
    }
}

/// Merge mode: whether files are joined as they are or re-encoded.
#[derive(Debug, Clone, Copy, PartialEq, Eq, Structural)]
pub enum MergeMode {
    /// No re-encoding; the files must be M4A/M4B.
    Copy,
    /// Re-encode to AAC at a target bitrate.
    Transcode,
}

/// Whether `f` is an MPEG-4 audio format (M4A or M4B).
pub open spec fn is_m4(f: AudioFormat) -> bool {
    f == AudioFormat::M4A || f == AudioFormat::M4B
}

/// Whether every file of `fs` is M4A or M4B.
pub open spec fn all_m4(fs: Seq<AudioFile>) -> bool {
    forall|i: int| 0 <= i < fs.len() ==> is_m4(#[trigger] fs[i].format)
}

/// The mode that files call for: copy when all are M4A/M4B.
pub open spec fn mode_for(fs: Seq<AudioFile>) -> MergeMode {
    if all_m4(fs) {
        MergeMode::Copy
    } else {
        MergeMode::Transcode
    }
}

/// The formats of the files of `fs` that are not M4A/M4B, in order.
pub open spec fn non_m4_formats(fs: Seq<AudioFile>) -> Seq<AudioFormat>
    decreases fs.len(),
{
    if fs.len() == 0 {
        seq![]
    } else if is_m4(fs.last().format) {
        non_m4_formats(fs.drop_last())
    } else {
        non_m4_formats(fs.drop_last()).push(fs.last().format)
    }
}

/// A bitrate argument: the number of kilobits followed by `k`.
pub open spec fn bitrate_text(b: nat) -> Seq<char> {
    dec(b) + seq!['k']
}

/// The FFmpeg codec arguments of a mode: `-c copy`, or AAC at the target
/// bitrate (128k when none is given).
pub open spec fn codec_args_of(mode: MergeMode, target: Option<u32>) -> Seq<Seq<char>> {
    match mode {
        MergeMode::Copy => seq!["-c"@, "copy"@],
        MergeMode::Transcode => seq![
            "-c:a"@,
            "aac"@,
            "-b:a"@,
            bitrate_text(
                match target {
                    Some(b) => b as nat,
                    None => 128,
                },
            ),
        ],
    }
}

/// Whether every file is M4A or M4B.
fn all_m4_exec(files: &[AudioFile]) -> (b: bool)
    ensures
        b == all_m4(files@),
{
    let mut i: usize = 0;
    while i < files.len()
        invariant
            i <= files@.len(),
            forall|k: int| 0 <= k < i ==> is_m4(#[trigger] files@[k].format),
        decreases files.len() - i,
    {
        match files[i].format {
            AudioFormat::M4A | AudioFormat::M4B => {},
            _ => {
                return false;
            },
        }
        i = i + 1;
    }
    true
}

/// The formats of the files that are not M4A/M4B.
fn non_m4_exec(files: &[AudioFile]) -> (r: Vec<AudioFormat>)
    ensures
        r@ == non_m4_formats(files@),
{
    let mut r: Vec<AudioFormat> = Vec::new();
    let mut i: usize = 0;
    assert(files@.take(0) =~= Seq::<AudioFile>::empty());
    while i < files.len()
        invariant
            i <= files@.len(),
            r@ == non_m4_formats(files@.take(i as int)),
        decreases files.len() - i,
    {
        assert(files@.take(i + 1).drop_last() =~= files@.take(i as int));
        match files[i].format {
            AudioFormat::M4A | AudioFormat::M4B => {},
            f => {
                r.push(f);
            },
        }
        i = i + 1;
    }
    assert(files@.take(files.len() as int) =~= files@);
    r
}

/// `non_m4_formats` is empty exactly when all files are M4A/M4B.
proof fn lemma_non_m4_empty(fs: Seq<AudioFile>)
    ensures
        (non_m4_formats(fs).len() == 0) == all_m4(fs),
    decreases fs.len(),
{
    if fs.len() > 0 {
        lemma_non_m4_empty(fs.drop_last());
        if !all_m4(fs.drop_last()) {
            let k = choose|k: int| 0 <= k < fs.len() - 1 && !is_m4(#[trigger] fs.drop_last()[k].format);
            assert(fs[k] == fs.drop_last()[k]);
        }
        if all_m4(fs.drop_last()) && is_m4(fs.last().format) {
            assert forall|i: int| 0 <= i < fs.len() implies is_m4(#[trigger] fs[i].format) by {
                if i < fs.len() - 1 {
                    assert(fs[i] == fs.drop_last()[i]);
                }
            }
        }
    }
}

/// Appends a copy of `s` to `v`.
fn push_text(v: &mut Vec<String>, s: &str)
    ensures
        string_views(final(v)@) == string_views(old(v)@).push(s@),
{
    let ghost before = v@;
    v.push(s.to_owned());
    assert(string_views(v@) =~= string_views(before).push(s@));
}

/// The bitrate argument `<b>k`.
fn bitrate_string(b: u32) -> (s: String)
    ensures
        s@ == bitrate_text(b as nat),
{
    let mut v = crate::text::dec_exec(b as u128);
    v.push('k');
    string_of(v.as_slice())
}

impl MergeMode {
    /// Copy when every file is M4A/M4B, otherwise transcode.
    pub fn from_files(files: &[AudioFile]) -> (m: MergeMode)
        ensures
            m == mode_for(files@),
    {
        if all_m4_exec(files) {
            MergeMode::Copy
        } else {
            MergeMode::Transcode
        }
    }

    /// The FFmpeg codec arguments for this mode.
    pub fn codec_args(&self, target_bitrate: Option<u32>) -> (r: Vec<String>)
        ensures
            string_views(r@) == codec_args_of(*self, target_bitrate),
    {
        let mut r: Vec<String> = Vec::new();
        match self {
            MergeMode::Copy => {
                push_text(&mut r, "-c");
                push_text(&mut r, "copy");
            },
            MergeMode::Transcode => {
                let b: u32 = match target_bitrate {
                    Some(b) => b,
                    None => 128,
                };
                push_text(&mut r, "-c:a");
                push_text(&mut r, "aac");
                push_text(&mut r, "-b:a");
                let t = bitrate_string(b);
                push_text(&mut r, t.as_str());
            },
        }
        assert(string_views(r@) =~= codec_args_of(*self, target_bitrate));
        r
    }
}

/// A merge job as plain values.
pub struct MergeJobView {
    pub input_files: Seq<AudioFile>,
    pub output_path: Seq<char>,
    pub mode: MergeMode,
    pub target_bitrate: Option<u32>,
    pub num_threads: Option<usize>,
}

/// Merge job configuration.
#[derive(Debug, Clone)]
pub struct MergeJob {
    /// Input audio files to merge.
    pub input_files: Vec<AudioFile>,
    /// Output file path.
    pub output_path: String,
    /// Merge mode.
    pub mode: MergeMode,
    /// Target bitrate for transcoding, in kbps.
    pub target_bitrate: Option<u32>,
    /// Number of encoder threads.
    pub num_threads: Option<usize>,
}

impl View for MergeJob {
    type V = MergeJobView;

    open spec fn view(&self) -> MergeJobView {
        MergeJobView {
            input_files: self.input_files@,
            output_path: self.output_path@,
            mode: self.mode,
            target_bitrate: self.target_bitrate,
            num_threads: self.num_threads,
        }
    }
}

/// The job that `MergeJob::new` makes of `files` and `output`.
pub open spec fn new_job(files: Seq<AudioFile>, output: Seq<char>) -> MergeJobView {
    MergeJobView {
        input_files: files,
        output_path: output,
        mode: mode_for(files),
        target_bitrate: None,
        num_threads: None,
    }
}

/// The index of the first `false` in `s`.
pub open spec fn first_missing(s: Seq<bool>) -> Option<int>
    decreases s.len(),
{
    if s.len() == 0 {
        None
    } else {
        match first_missing(s.drop_last()) {
            Some(k) => Some(k),
            None => if !s.last() {
                Some(s.len() - 1)
            } else {
                None
            },
        }
    }
}

/// What validating a job gives, when `present[i]` tells whether input file
/// `i` exists: no files, then the first missing file, then (in copy mode) the
/// formats that cannot be copied.
pub open spec fn validation_outcome(j: MergeJobView, present: Seq<bool>, r: Result<(), MergeError>) -> bool {
    if j.input_files.len() == 0 {
        r matches Err(MergeError::NoInputFiles)
    } else {
        match first_missing(present) {
            Some(k) => r matches Err(MergeError::FFmpeg(FFmpegError::FileNotFound(p))) && p@
                == j.input_files[k].path@,
            None => if j.mode == MergeMode::Copy && !all_m4(j.input_files) {
                r matches Err(MergeError::IncompatibleFormats(v)) && v@ == non_m4_formats(
                    j.input_files,
                )
            } else {
                r is Ok
            },
        }
    }
}

impl MergeJob {
    /// A job for `input_files` with the mode they call for.
    pub fn new(input_files: Vec<AudioFile>, output_path: String) -> (j: MergeJob)
        ensures
            j@ == new_job(input_files@, output_path@),
    {
        let mode = MergeMode::from_files(input_files.as_slice());
        MergeJob { input_files, output_path, mode, target_bitrate: None, num_threads: None }
    }

    /// The job with `mode` set.
    pub fn with_mode(self, mode: MergeMode) -> (j: MergeJob)
        ensures
            j@ == (MergeJobView { mode, ..self@ }),
    {
        let mut s = self;
        s.mode = mode;
        s
    }

    /// The job with the target bitrate set.
    pub fn with_bitrate(self, bitrate: u32) -> (j: MergeJob)
        ensures
            j@ == (MergeJobView { target_bitrate: Some(bitrate), ..self@ }),
    {
        let mut s = self;
        s.target_bitrate = Some(bitrate);
        s
    }

    /// The job with the thread count set.
    pub fn with_threads(self, threads: usize) -> (j: MergeJob)
        ensures
            j@ == (MergeJobView { num_threads: Some(threads), ..self@ }),
    {
        let mut s = self;
        s.num_threads = Some(threads);
        s
    }

    /// Validates the job given whether each input file exists
    /// (`present[i]` for file `i`).
    pub fn validate_given(&self, present: &[bool]) -> (r: Result<(), MergeError>)
        requires
            present@.len() == self.input_files@.len(),
        ensures
            validation_outcome(self@, present@, r),
    {
        if self.input_files.len() == 0 {
            return Err(MergeError::NoInputFiles);
        }
        let mut i: usize = 0;
        while i < present.len()
            invariant
                i <= present@.len(),
                present@.len() == self.input_files@.len(),
                first_missing(present@.take(i as int)) is None,
            decreases present.len() - i,
        {
            assert(present@.take(i + 1).drop_last() =~= present@.take(i as int));
            if !present[i] {
                proof {
                    lemma_first_missing_prefix(present@, i as int);
                }
                return Err(
                    MergeError::FFmpeg(FFmpegError::FileNotFound(self.input_files[i].path.clone())),
                );
            }
            i = i + 1;
        }
        assert(present@.take(present.len() as int) =~= present@);
        if self.mode == MergeMode::Copy {
            let non_m4 = non_m4_exec(self.input_files.as_slice());
            proof {
                lemma_non_m4_empty(self.input_files@);
            }
            if non_m4.len() > 0 {
                return Err(MergeError::IncompatibleFormats(non_m4));
            }
        }
        Ok(())
    }

    /// Validates the job: there must be input files, each must exist, and
    /// in copy mode each must be M4A/M4B. Which files exist is read from the
    /// file system when called.
    pub fn validate(&self) -> (r: Result<(), MergeError>)
        ensures
            exists|present: Seq<bool>|
                present.len() == self.input_files@.len() && validation_outcome(self@, present, r),
    {
        let mut present: Vec<bool> = Vec::new();
        let mut i: usize = 0;
        while i < self.input_files.len()
            invariant
                i <= self.input_files@.len(),
                present@.len() == i,
            decreases self.input_files.len() - i,
        {
            present.push(path_exists(self.input_files[i].path.as_str()));
            i = i + 1;
        }
        self.validate_given(present.as_slice())
    }
}

/// The first `false` of `s` is at `i` when none precedes it.
pub(crate) proof fn lemma_first_missing_prefix(s: Seq<bool>, i: int)
    requires
        0 <= i < s.len(),
        first_missing(s.take(i)) is None,
        !s[i],
    ensures
        first_missing(s) == Some(i),
    decreases s.len(),
{
    if i < s.len() - 1 {
        assert(s.drop_last().take(i) =~= s.take(i));
        lemma_first_missing_prefix(s.drop_last(), i);
    } else {
        assert(s.drop_last() =~= s.take(i));
    }
}

/// A `u32` read as `i32` (two's complement), as `as i32` does.
pub open spec fn as_i32(b: u32) -> int {
    if b < 0x8000_0000 {
        b as int
    } else {
        b - 0x1_0000_0000
    }
}

/// The distance `|std - b|` by which bitrates are compared, with `b` read as
/// an `i32`.
pub open spec fn bitrate_distance(std: u32, b: u32) -> int {
    let d = std - as_i32(b);
    if d < 0 {
        -d
    } else {
        d
    }
}

/// The standard bitrates, in kbps.
pub open spec fn standard_bitrates() -> Seq<u32> {
    seq![64u32, 96, 128, 192, 256, 320]
}

/// The first element of `s` at the least distance from `b`.
pub open spec fn closest_in(s: Seq<u32>, b: u32) -> u32
    decreases s.len(),
{
    if s.len() <= 1 {
        s[0]
    } else {
        let rest = closest_in(s.drop_first(), b);
        if bitrate_distance(s[0], b) <= bitrate_distance(rest, b) {
            s[0]
        } else {
            rest
        }
    }
}

/// Whether comparing `b` with the standard bitrates stays within `i32`
/// (it does not for `b` read as one of the 321 most negative `i32`s).
pub open spec fn rounding_defined(b: u32) -> bool {
    !(0x8000_0000 <= b <= 0x8000_0000u32 + 320)
}

/// The closest element is one of `s` and no element is closer.
proof fn lemma_closest_in(s: Seq<u32>, b: u32)
    requires
        s.len() >= 1,
    ensures
        s.contains(closest_in(s, b)),
        forall|i: int| 0 <= i < s.len() ==> bitrate_distance(closest_in(s, b), b) <= bitrate_distance(#[trigger] s[i], b),
    decreases s.len(),
{
    if s.len() > 1 {
        lemma_closest_in(s.drop_first(), b);
        assert forall|i: int| 0 <= i < s.len() implies bitrate_distance(closest_in(s, b), b)
            <= bitrate_distance(#[trigger] s[i], b) by {
            if i > 0 {
                assert(s[i] == s.drop_first()[i - 1]);
            }
        }
        if closest_in(s, b) != s[0] {
            let k = choose|k: int| 0 <= k < s.len() - 1 && s.drop_first()[k] == closest_in(s.drop_first(), b);
            assert(s[k + 1] == s.drop_first()[k]);
        }
    } else {
        assert(s[0] == closest_in(s, b));
    }
}

/// The positive bitrates recorded in the files' metadata, in order.
pub open spec fn known_bitrates(fs: Seq<AudioFile>) -> Seq<u32>
    decreases fs.len(),
{
    if fs.len() == 0 {
        seq![]
    } else {
        let r = known_bitrates(fs.drop_last());
        match fs.last().metadata {
            Some(m) => if m.bitrate > 0 {
                r.push(m.bitrate)
            } else {
                r
            },
            None => r,
        }
    }
}

/// How often `x` occurs in `s`.
pub open spec fn count_in(s: Seq<u32>, x: u32) -> nat
    decreases s.len(),
{
    if s.len() == 0 {
        0
    } else {
        count_in(s.drop_last(), x) + if s.last() == x {
            1nat
        } else {
            0nat
        }
    }
}

/// Whether `x` is the most common value of `s`, the first to occur where
/// several are as common.
pub open spec fn is_most_common(s: Seq<u32>, x: u32) -> bool {
    exists|k: int|
        0 <= k < s.len() && s[k] == x && (forall|j: int|
            0 <= j < s.len() ==> count_in(s, #[trigger] s[j]) <= count_in(s, x)) && (forall|j: int|
            0 <= j < k ==> count_in(s, #[trigger] s[j]) < count_in(s, x))
}

/// The most common value of `s` (see `is_most_common`).
pub open spec fn most_common(s: Seq<u32>) -> u32 {
    choose|x: u32| is_most_common(s, x)
}

/// What the files' metadata says of the bitrate to encode at: nothing for no
/// files, the standard bitrate closest to the most common known bitrate (in
/// bit/s) taken in kbit/s, or (with no known bitrate) that the first file
/// must be probed.
pub open spec fn bitrate_from_files(fs: Seq<AudioFile>) -> Option<Option<u32>> {
    if fs.len() == 0 {
        None
    } else if known_bitrates(fs).len() == 0 {
        Some(None)
    } else {
        Some(Some(closest_in(standard_bitrates(), most_common(known_bitrates(fs)) / 1000)))
    }
}

/// At most one value is the most common.
proof fn lemma_most_common_unique(s: Seq<u32>, x: u32, y: u32)
    requires
        is_most_common(s, x),
        is_most_common(s, y),
    ensures
        x == y,
{
    let kx = choose|k: int|
        0 <= k < s.len() && s[k] == x && (forall|j: int|
            0 <= j < s.len() ==> count_in(s, #[trigger] s[j]) <= count_in(s, x)) && (forall|j: int|
            0 <= j < k ==> count_in(s, #[trigger] s[j]) < count_in(s, x));
    let ky = choose|k: int|
        0 <= k < s.len() && s[k] == y && (forall|j: int|
            0 <= j < s.len() ==> count_in(s, #[trigger] s[j]) <= count_in(s, y)) && (forall|j: int|
            0 <= j < k ==> count_in(s, #[trigger] s[j]) < count_in(s, y));
    assert(count_in(s, s[kx]) <= count_in(s, y));
    assert(count_in(s, s[ky]) <= count_in(s, x));
    if kx < ky {
        assert(count_in(s, s[kx]) < count_in(s, y));
    } else if ky < kx {
        assert(count_in(s, s[ky]) < count_in(s, x));
    }
}

/// The positive bitrates recorded in the files' metadata.
pub fn known_bitrates_of(files: &[AudioFile]) -> (r: Vec<u32>)
    ensures
        r@ == known_bitrates(files@),
{
    let mut r: Vec<u32> = Vec::new();
    let mut i: usize = 0;
    assert(files@.take(0) =~= Seq::<AudioFile>::empty());
    while i < files.len()
        invariant
            i <= files@.len(),
            r@ == known_bitrates(files@.take(i as int)),
        decreases files.len() - i,
    {
        assert(files@.take(i + 1).drop_last() =~= files@.take(i as int));
        assert(files@.take(i + 1).last() == files@[i as int]);
        match &files[i].metadata {
            Some(m) => {
                if m.bitrate > 0 {
                    r.push(m.bitrate);
                }
            },
            None => {},
        }
        i = i + 1;
    }
    assert(files@.take(files.len() as int) =~= files@);
    r
}

/// How often `x` occurs in `s`.
fn count_of(s: &Vec<u32>, x: u32) -> (c: usize)
    ensures
        c == count_in(s@, x),
{
    let mut c: usize = 0;
    let mut j: usize = 0;
    assert(s@.take(0) =~= Seq::<u32>::empty());
    while j < s.len()
        invariant
            j <= s@.len(),
            c == count_in(s@.take(j as int), x),
            c <= j,
        decreases s.len() - j,
    {
        assert(s@.take(j + 1).drop_last() =~= s@.take(j as int));
        if s[j] == x {
            c = c + 1;
        }
        j = j + 1;
    }
    assert(s@.take(s.len() as int) =~= s@);
    c
}

/// The most common of `bitrates`, the first to occur where several are as
/// common; `None` when there are none.
pub fn most_common_bitrate(bitrates: &Vec<u32>) -> (r: Option<u32>)
    ensures
        bitrates@.len() == 0 <==> r is None,
        r matches Some(x) ==> is_most_common(bitrates@, x) && x == most_common(bitrates@),
{
    if bitrates.len() == 0 {
        return None;
    }
    let ghost s = bitrates@;
    let mut best: u32 = bitrates[0];
    let mut best_count: usize = count_of(bitrates, best);
    let ghost mut best_at: int = 0;
    let mut i: usize = 1;
    while i < bitrates.len()
        invariant
            s == bitrates@,
            1 <= i <= s.len(),
            0 <= best_at < i,
            s[best_at] == best,
            best_count == count_in(s, best),
            forall|j: int| 0 <= j < i ==> count_in(s, #[trigger] s[j]) <= best_count,
            forall|j: int| 0 <= j < best_at ==> count_in(s, #[trigger] s[j]) < best_count,
        decreases s.len() - i,
    {
        let c = count_of(bitrates, bitrates[i]);
        if c > best_count {
            best = bitrates[i];
            best_count = c;
            proof {
                best_at = i as int;
            }
        }
        i = i + 1;
    }
    assert(is_most_common(s, best));
    proof {
        lemma_most_common_unique(s, best, most_common(s));
    }
    Some(best)
}

impl View for Merger {
    type V = crate::ffmpeg::FFmpegView;

    closed spec fn view(&self) -> crate::ffmpeg::FFmpegView {
        (*self.ffmpeg)@
    }
}

/// Manages audio file merging: holds the FFmpeg handle merges run with.
pub struct Merger {
    ffmpeg: std::sync::Arc<FFmpeg>,
}

impl Merger {
    /// A merger that runs the given FFmpeg.
    pub fn new(ffmpeg: std::sync::Arc<FFmpeg>) -> (m: Merger)
        ensures
            m@ == (*ffmpeg)@,
    {
        Merger { ffmpeg }
    }

    /// The FFmpeg handle.
    pub fn ffmpeg(&self) -> (f: &FFmpeg)
        ensures
            f@ == self@,
    {
        &*self.ffmpeg
    }

    /// Whether `files` can be merged without re-encoding: all are M4A/M4B.
    pub fn can_copy_merge(&self, files: &[AudioFile]) -> (b: bool)
        ensures
            b == all_m4(files@),
    {
        all_m4_exec(files)
    }

    /// The standard bitrate (64, 96, 128, 192, 256 or 320 kbps) closest to
    /// `bitrate`; of two equally close, the lower.
    pub fn round_to_standard_bitrate(bitrate: u32) -> (r: u32)
        requires
            rounding_defined(bitrate),
        ensures
            r == closest_in(standard_bitrates(), bitrate),
            standard_bitrates().contains(r),
            forall|i: int|
                0 <= i < 6 ==> bitrate_distance(r, bitrate) <= bitrate_distance(
                    #[trigger] standard_bitrates()[i],
                    bitrate,
                ),
    {
        let standards: [u32; 6] = [64, 96, 128, 192, 256, 320];
        let ghost sv = standard_bitrates();
        assert(standards@ =~= sv);
        let b: i64 = if bitrate < 0x8000_0000 {
            bitrate as i64
        } else {
            bitrate as i64 - 0x1_0000_0000
        };
        let mut best: u32 = standards[5];
        let mut i: usize = 5;
        assert(sv.skip(5) =~= seq![320u32]);
        while i > 0
            invariant
                i <= 5,
                standards@ == sv,
                b == as_i32(bitrate),
                best == closest_in(sv.skip(i as int), bitrate),
            decreases i,
        {
            i = i - 1;
            let s = standards[i];
            let ds: i64 = if s as i64 >= b {
                s as i64 - b
            } else {
                b - s as i64
            };
            let db: i64 = if best as i64 >= b {
                best as i64 - b
            } else {
                b - best as i64
            };
            assert(sv.skip(i as int).drop_first() =~= sv.skip(i + 1));
            assert(sv.skip(i as int)[0] == s);
            if ds <= db {
                best = s;
            }
        }
        assert(sv.skip(0) =~= sv);
        proof {
            lemma_closest_in(sv, bitrate);
        }
        best
    }

    /// What the files' metadata says of the bitrate to encode at:
    /// `BitrateDetectionFailed` for no files, the standard bitrate closest to
    /// the most common of the files' known bitrates (bit/s) in kbit/s, or
    /// `None` when no file has a known bitrate and the first file must be
    /// probed.
    pub fn bitrate_from_metadata(files: &[AudioFile]) -> (r: Result<Option<u32>, MergeError>)
        ensures
            bitrate_from_files(files@) matches Some(o) ==> r == Ok::<Option<u32>, MergeError>(o),
            bitrate_from_files(files@) is None ==> r matches Err(
                MergeError::BitrateDetectionFailed,
            ),
    {
        if files.len() == 0 {
            return Err(MergeError::BitrateDetectionFailed);
        }
        let known = known_bitrates_of(files);
        match most_common_bitrate(&known) {
            None => Ok(None),
            Some(b) => Ok(Some(Merger::round_to_standard_bitrate(b / 1000))),
        }
    }

    /// The bitrate to encode at from probing the first file: the FFmpeg
    /// error, `BitrateDetectionFailed` when the probe found no bitrate, or
    /// the standard bitrate closest to the probed bitrate in kbps (bits per
    /// second divided by 1000, read as `u32`).
    pub fn bitrate_from_probe(probed: Result<AudioMetadata, FFmpegError>) -> (r: Result<u32, MergeError>)
        requires
            probed matches Ok(m) ==> (m.bitrate matches Some(b) ==> rounding_defined(
                (b / 1000) as u32,
            )),
        ensures
            probed is Err ==> r matches Err(MergeError::FFmpeg(_)),
            probed matches Ok(m) ==> match m.bitrate {
                Some(b) => r == Ok::<u32, MergeError>(
                    closest_in(standard_bitrates(), (b / 1000) as u32),
                ),
                None => r matches Err(MergeError::BitrateDetectionFailed),
            },
    {
        match probed {
            Err(e) => Err(MergeError::FFmpeg(e)),
            Ok(m) => match m.bitrate {
                Some(b) => {
                    let kbps: u32 = (b / 1000) as u32;
                    Ok(Merger::round_to_standard_bitrate(kbps))
                },
                None => Err(MergeError::BitrateDetectionFailed),
            },
        }
    }
}

/// The bitrate a merge encodes at: none when copying; when transcoding, the
/// job's own bitrate, else the detected one, else 128 kbps.
pub open spec fn target_bitrate_of(mode: MergeMode, requested: Option<u32>, detected: Option<u32>) -> Option<u32> {
    match mode {
        MergeMode::Copy => None,
        MergeMode::Transcode => Some(
            match requested {
                Some(b) => b,
                None => match detected {
                    Some(d) => d,
                    None => 128,
                },
            },
        ),
    }
}

/// The bitrate a merge encodes at, given the job's own bitrate and what
/// detection found (`None` when it failed or was not needed).
pub fn choose_target_bitrate(mode: MergeMode, requested: Option<u32>, detected: Option<u32>) -> (r:
    Option<u32>)
    ensures
        r == target_bitrate_of(mode, requested, detected),
{
    match mode {
        MergeMode::Copy => None,
        MergeMode::Transcode => Some(
            match requested {
                Some(b) => b,
                None => match detected {
                    Some(d) => d,
                    None => 128,
                },
            },
        ),
    }
}

/// The thread-count arguments, when a count is set.
pub open spec fn thread_args(threads: Option<usize>) -> Seq<Seq<char>> {
    match threads {
        Some(n) => seq!["-threads"@, dec(n as nat)],
        None => seq![],
    }
}

/// The FFmpeg arguments that concatenate the files of a concat list into
/// `output`, overwriting it.
pub open spec fn concat_merge_args_of(
    threads: Option<usize>,
    list_path: Seq<char>,
    mode: MergeMode,
    target: Option<u32>,
    output: Seq<char>,
) -> Seq<Seq<char>> {
    thread_args(threads) + seq!["-f"@, "concat"@, "-safe"@, "0"@, "-i"@, list_path]
        + codec_args_of(mode, target) + seq!["-y"@, output]
}

/// The FFmpeg arguments that turn one file into `output`: re-encoded to AAC
/// when a bitrate is given, copied otherwise.
pub open spec fn single_file_args_of(input: Seq<char>, target: Option<u32>, output: Seq<char>) -> Seq<
    Seq<char>,
> {
    seq!["-i"@, input] + match target {
        Some(b) => seq!["-c:a"@, "aac"@, "-b:a"@, bitrate_text(b as nat)],
        None => seq!["-c"@, "copy"@],
    } + seq!["-y"@, output]
}

/// Appends the strings of `w` to `v`.
fn push_all(v: &mut Vec<String>, w: Vec<String>)
    ensures
        string_views(final(v)@) == string_views(old(v)@) + string_views(w@),
{
    let mut i: usize = 0;
    let ghost start = string_views(v@);
    while i < w.len()
        invariant
            i <= w@.len(),
            string_views(v@) == start + string_views(w@).take(i as int),
        decreases w.len() - i,
    {
        push_text(v, w[i].as_str());
        assert(string_views(w@).take(i + 1) =~= string_views(w@).take(i as int).push(w@[i as int]@));
        i = i + 1;
    }
    assert(string_views(w@).take(w.len() as int) =~= string_views(w@));
}

/// The FFmpeg arguments of a merge of several files through the concat list
/// at `concat_list_path`.
pub fn concat_merge_args(job: &MergeJob, concat_list_path: &str, target_bitrate: Option<u32>) -> (r:
    Vec<String>)
    ensures
        string_views(r@) == concat_merge_args_of(
            job.num_threads,
            concat_list_path@,
            job.mode,
            target_bitrate,
            job.output_path@,
        ),
{
    let mut r: Vec<String> = Vec::new();
    match job.num_threads {
        Some(n) => {
            push_text(&mut r, "-threads");
            let t = dec_string(n as u128);
            push_text(&mut r, t.as_str());
        },
        None => {},
    }
    push_text(&mut r, "-f");
    push_text(&mut r, "concat");
    push_text(&mut r, "-safe");
    push_text(&mut r, "0");
    push_text(&mut r, "-i");
    push_text(&mut r, concat_list_path);
    let codec = job.mode.codec_args(target_bitrate);
    push_all(&mut r, codec);
    push_text(&mut r, "-y");
    push_text(&mut r, job.output_path.as_str());
    assert(string_views(r@) =~= concat_merge_args_of(
        job.num_threads,
        concat_list_path@,
        job.mode,
        target_bitrate,
        job.output_path@,
    ));
    r
}

/// The FFmpeg arguments that turn the single file `input` into `output`.
pub fn single_file_args(input: &str, output: &str, target_bitrate: Option<u32>) -> (r: Vec<String>)
    ensures
        string_views(r@) == single_file_args_of(input@, target_bitrate, output@),
{
    let mut r: Vec<String> = Vec::new();
    push_text(&mut r, "-i");
    push_text(&mut r, input);
    match target_bitrate {
        Some(b) => {
            push_text(&mut r, "-c:a");
            push_text(&mut r, "aac");
            push_text(&mut r, "-b:a");
            let t = bitrate_string(b);
            push_text(&mut r, t.as_str());
        },
        None => {
            push_text(&mut r, "-c");
            push_text(&mut r, "copy");
        },
    }
    push_text(&mut r, "-y");
    push_text(&mut r, output);
    assert(string_views(r@) =~= single_file_args_of(input@, target_bitrate, output@));
    r
}

/// The concat list for the (absolute) paths of the files to merge: one
/// `file '<path>'` line each, single quotes escaped.
pub fn concat_list_content(paths: &[String]) -> (r: String)
    ensures
        r@ == crate::ffmpeg::concat_list(string_views(paths@)),
{
    let mut out: Vec<char> = Vec::new();
    let mut i: usize = 0;
    let ghost pv = string_views(paths@);
    assert(pv.take(0) =~= Seq::<Seq<char>>::empty());
    while i < paths.len()
        invariant
            i <= paths@.len(),
            pv == string_views(paths@),
            out@ == crate::ffmpeg::concat_list(pv.take(i as int)),
        decreases paths.len() - i,
    {
        let line = crate::ffmpeg::concat_line_exec(paths[i].as_str());
        extend_chars(&mut out, line.as_slice());
        assert(pv.take(i + 1).drop_last() =~= pv.take(i as int));
        assert(pv.take(i + 1).last() == paths@[i as int]@);
        i = i + 1;
    }
    assert(pv.take(paths.len() as int) =~= pv);
    string_of(out.as_slice())
}

/// Whether `r` is what a finished concat merge means: the exit code where
/// FFmpeg failed (-1 without one), a missing output file, or the output path.
pub open spec fn concat_outcome_is(
    success: bool,
    exit_code: Option<i32>,
    output_exists: bool,
    output_path: Seq<char>,
    r: Result<String, MergeError>,
) -> bool {
    &&& !success ==> (r matches Err(MergeError::OperationFailed(m)) && m@
        == "FFmpeg exited with code "@ + crate::text::signed_dec(
        match exit_code {
            Some(c) => c as int,
            None => -1,
        },
    ))
    &&& success && !output_exists ==> (r matches Err(MergeError::OperationFailed(m)) && m@
        == "Output file was not created"@)
    &&& success && output_exists ==> (r matches Ok(p) && p@ == output_path)
}

/// Whether `r` is what a finished single-file copy means.
pub open spec fn single_outcome_is(success: bool, stderr: Seq<u8>, output_path: Seq<char>, r: Result<
    String,
    MergeError,
>) -> bool {
    &&& !success ==> (r matches Err(MergeError::OperationFailed(m)) && m@ == "FFmpeg failed: "@
        + crate::chapters::utf8_lossy(stderr))
    &&& success ==> (r matches Ok(p) && p@ == output_path)
}

/// What a finished concat merge means: FFmpeg's failure (with its exit
/// code, -1 when there is none), an output that was not written, or the
/// output path.
pub fn concat_merge_outcome(success: bool, exit_code: Option<i32>, output_exists: bool, output_path: &str) -> (r:
    Result<String, MergeError>)
    ensures
        concat_outcome_is(success, exit_code, output_exists, output_path@, r),
{
    if !success {
        let code: i32 = match exit_code {
            Some(c) => c,
            None => -1,
        };
        let mut m: Vec<char> = Vec::new();
        extend_str(&mut m, "FFmpeg exited with code ");
        let d = crate::text::signed_dec_exec(code as i64);
        extend_chars(&mut m, d.as_slice());
        return Err(MergeError::OperationFailed(string_of(m.as_slice())));
    }
    if !output_exists {
        return Err(MergeError::OperationFailed("Output file was not created".to_owned()));
    }
    Ok(output_path.to_owned())
}

/// What a finished single-file copy means: FFmpeg's failure, with its
/// standard error read as (lossy) UTF-8, or the output path.
pub fn single_copy_outcome(success: bool, stderr: &[u8], output_path: &str) -> (r: Result<
    String,
    MergeError,
>)
    ensures
        single_outcome_is(success, stderr@, output_path@, r),
{
    if !success {
        let text = crate::chapters::decode_lossy(stderr);
        let mut m: Vec<char> = Vec::new();
        extend_str(&mut m, "FFmpeg failed: ");
        extend_str(&mut m, text.as_str());
        return Err(MergeError::OperationFailed(string_of(m.as_slice())));
    }
    Ok(output_path.to_owned())
}

/// Whether every character of `s` is an ASCII digit.
pub open spec fn all_digits(s: Seq<char>) -> bool {
    forall|i: int| 0 <= i < s.len() ==> is_digit(#[trigger] s[i])
}

/// The first nine characters of `f`, padded with zeros to nine.
pub open spec fn nine_digits(f: Seq<char>) -> Seq<char> {
    if f.len() >= 9 {
        f.take(9)
    } else {
        f + Seq::new((9 - f.len()) as nat, |i: int| '0')
    }
}

/// The seconds field of a time read as a decimal number: an optional `+`,
/// then digits with an optional `.` and fraction digits (at least one digit
/// in all). The result is the whole seconds and the nanoseconds that the
/// first nine fraction digits give.
pub open spec fn seconds_field(s: Seq<char>) -> Option<(nat, nat)> {
    let b = unsigned_digits(s);
    let p = split(b, '.');
    if p.len() == 1 {
        if b.len() > 0 && all_digits(b) {
            Some((digits_value(b), 0))
        } else {
            None
        }
    } else if p.len() == 2 {
        if all_digits(p[0]) && all_digits(p[1]) && p[0].len() + p[1].len() > 0 {
            Some((digits_value(p[0]), digits_value(nine_digits(p[1]))))
        } else {
            None
        }
    } else {
        None
    }
}

/// A field read as a `u64`.
pub open spec fn u64_field(s: Seq<char>) -> Option<nat> {
    match parse_unsigned(s) {
        Some(v) => if v <= u64::MAX {
            Some(v)
        } else {
            None
        },
        None => None,
    }
}

/// The hours, minutes, whole seconds and nanoseconds of `HH:MM:SS.xx`.
pub open spec fn time_fields(s: Seq<char>) -> Option<(nat, nat, nat, nat)> {
    let p = split(s, ':');
    if p.len() == 3 {
        match (u64_field(p[0]), u64_field(p[1]), seconds_field(p[2])) {
            (Some(h), Some(m), Some((w, n))) => Some((h, m, w, n)),
            _ => None,
        }
    } else {
        None
    }
}

/// Whether the whole seconds of a time fit in `u64`.
pub open spec fn time_fits(s: Seq<char>) -> bool {
    time_fields(s) matches Some((h, m, w, n)) ==> h * 3600 + m * 60 + w <= u64::MAX
}

/// `10^n`.
pub open spec fn pow10(n: nat) -> nat
    decreases n,
{
    if n == 0 {
        1
    } else {
        10 * pow10((n - 1) as nat)
    }
}

/// `n` digits are worth less than `10^n`.
proof fn lemma_digits_value_bound(d: Seq<char>)
    requires
        all_digits(d),
    ensures
        digits_value(d) < pow10(d.len()),
    decreases d.len(),
{
    if d.len() > 0 {
        assert(all_digits(d.drop_last())) by {
            assert forall|i: int| 0 <= i < d.len() - 1 implies is_digit(#[trigger] d.drop_last()[i]) by {
                assert(d.drop_last()[i] == d[i]);
            }
        }
        lemma_digits_value_bound(d.drop_last());
        assert(is_digit(d[d.len() - 1]));
    }
}

/// `d` read as a `u64` when all are digits (none reads as zero).
fn digits_u64(d: &[char]) -> (r: Option<u64>)
    ensures
        r matches Some(v) ==> all_digits(d@) && v == digits_value(d@),
        r is None <==> (!all_digits(d@) || digits_value(d@) > u64::MAX),
{
    let mut acc: u64 = 0;
    let mut i: usize = 0;
    assert(d@.take(0) =~= Seq::<char>::empty());
    while i < d.len()
        invariant
            i <= d@.len(),
            acc == digits_value(d@.take(i as int)),
            all_digits(d@.take(i as int)),
        decreases d.len() - i,
    {
        let c = d[i];
        let u = c as u32;
        if !(48 <= u && u <= 57) {
            assert(!is_digit(d@[i as int]));
            return None;
        }
        let v: u64 = (u - 48) as u64;
        assert(d@.take(i + 1).drop_last() =~= d@.take(i as int));
        assert(d@.take(i + 1).last() == c);
        assert(digits_value(d@.take(i + 1)) == acc * 10 + v);
        assert(all_digits(d@.take(i + 1))) by {
            assert forall|k: int| 0 <= k < i + 1 implies is_digit(#[trigger] d@.take(i + 1)[k]) by {
                if k < i {
                    assert(d@.take(i + 1)[k] == d@.take(i as int)[k]);
                }
            }
        }
        if acc > (u64::MAX - v) / 10 {
            proof {
                assert(digits_value(d@.take(i + 1)) > u64::MAX) by (nonlinear_arith)
                    requires
                        digits_value(d@.take(i + 1)) == acc * 10 + v,
                        acc > (u64::MAX - v) / 10,
                        v <= 9,
                ;
                crate::text::lemma_digits_value_monotone(d@, i + 1, d@.len() as int);
                assert(d@.take(d@.len() as int) =~= d@);
            }
            return None;
        }
        acc = acc * 10 + v;
        i = i + 1;
    }
    assert(d@.take(d@.len() as int) =~= d@);
    Some(acc)
}

/// Reads an FFmpeg time `HH:MM:SS.xx`. Hours and minutes are unsigned
/// integers; the seconds are read as an exact decimal number (see
/// `seconds_field`), of which nine fraction digits count. The whole seconds
/// must fit in `u64`.
///
/// The seconds are read without floating point, so the result can differ
/// from reading them as an `f64` and taking `fract() * 1e9` truncated to
/// nanoseconds: `12.70` gives 12.7 s here where the `f64` reading gives
/// 12.699999999 s, and forms an `f64` parse accepts beyond plain decimals
/// (`-1`, `1e1`, `inf`, `NaN`) give "Invalid seconds" here. The progress
/// lines this reads (see `PROGRESS_PATTERN`) only carry plain decimals.
pub fn parse_ffmpeg_time(time_str: &str) -> (r: Result<Duration, MergeError>)
    requires
        time_fits(time_str@),
    ensures
        split(time_str@, ':').len() != 3 ==> (r matches Err(MergeError::ProgressParseError(m))
            && m@ == "Invalid time format: "@ + time_str@),
        split(time_str@, ':').len() == 3 && u64_field(split(time_str@, ':')[0]) is None ==> (
        r matches Err(MergeError::ProgressParseError(m)) && m@ == "Invalid hours: "@ + split(
            time_str@,
            ':',
        )[0]),
        split(time_str@, ':').len() == 3 && u64_field(split(time_str@, ':')[0]) is Some
            && u64_field(split(time_str@, ':')[1]) is None ==> (r matches Err(
            MergeError::ProgressParseError(m),
        ) && m@ == "Invalid minutes: "@ + split(time_str@, ':')[1]),
        split(time_str@, ':').len() == 3 && u64_field(split(time_str@, ':')[0]) is Some
            && u64_field(split(time_str@, ':')[1]) is Some && seconds_field(
            split(time_str@, ':')[2],
        ) is None ==> (r matches Err(MergeError::ProgressParseError(m)) && m@
            == "Invalid seconds: "@ + split(time_str@, ':')[2]),
        time_fields(time_str@) matches Some((h, m, w, n)) ==> (r matches Ok(d) && d@ == (h * 3600
            + m * 60 + w) * 1_000_000_000 + n),
{
    let chars = chars_of(time_str);
    let parts = split_exec(chars.as_slice(), ':');
    let ghost pv = split(time_str@, ':');
    assert(views(parts@) == pv);
    if parts.len() != 3 {
        let mut m: Vec<char> = Vec::new();
        extend_str(&mut m, "Invalid time format: ");
        extend_str(&mut m, time_str);
        return Err(MergeError::ProgressParseError(string_of(m.as_slice())));
    }
    assert(parts@[0]@ == pv[0] && parts@[1]@ == pv[1] && parts@[2]@ == pv[2]);
    let hours: u64 = match parse_u64(parts[0].as_slice()) {
        Some(h) => h,
        None => {
            let mut m: Vec<char> = Vec::new();
            extend_str(&mut m, "Invalid hours: ");
            extend_chars(&mut m, parts[0].as_slice());
            return Err(MergeError::ProgressParseError(string_of(m.as_slice())));
        },
    };
    let minutes: u64 = match parse_u64(parts[1].as_slice()) {
        Some(v) => v,
        None => {
            let mut m: Vec<char> = Vec::new();
            extend_str(&mut m, "Invalid minutes: ");
            extend_chars(&mut m, parts[1].as_slice());
            return Err(MergeError::ProgressParseError(string_of(m.as_slice())));
        },
    };
    let field = parts[2].as_slice();
    let secs = seconds_exec(field);
    match secs {
        Some((whole, nanos)) => {
            assert(time_fields(time_str@) == Some((hours as nat, minutes as nat, whole as nat, nanos as nat)));
            let total: u64 = hours * 3600 + minutes * 60 + whole;
            Ok(Duration::new(total, nanos))
        },
        None => {
            let mut m: Vec<char> = Vec::new();
            extend_str(&mut m, "Invalid seconds: ");
            extend_chars(&mut m, field);
            Err(MergeError::ProgressParseError(string_of(m.as_slice())))
        },
    }
}

/// The pattern of an FFmpeg progress line: the time, then optionally the
/// bitrate in kbit/s, then the speed.
pub const PROGRESS_PATTERN: &'static str =
    "time=(\\d+:\\d+:\\d+\\.\\d+)\\s+.*?(?:bitrate=\\s*([\\d.]+)kbits/s)?\\s+.*?speed=\\s*([\\d.]+)x";

/// The fields of an FFmpeg progress line, as text.
pub struct ProgressText {
    /// The time reached, `HH:MM:SS.xx`.
    pub time: String,
    /// The bitrate in kbit/s, where the line gives one.
    pub bitrate: Option<String>,
    /// The encoding speed, where the line gives one.
    pub speed: Option<String>,
}

/// Group `k` of captured groups, `None` past the last.
pub open spec fn group_at(gs: Seq<Option<Seq<char>>>, k: int) -> Option<Seq<char>> {
    if 0 <= k < gs.len() {
        gs[k]
    } else {
        None
    }
}

/// Group `k` of captured groups, `None` past the last.
fn group_at_exec(gs: &Vec<Option<String>>, k: usize) -> (r: Option<String>)
    ensures
        opt_view(r) == group_at(gs@.map_values(|g: Option<String>| opt_view(g)), k as int),
{
    if k < gs.len() {
        match &gs[k] {
            Some(g) => Some(g.clone()),
            None => None,
        }
    } else {
        None
    }
}

/// Reads a line of FFmpeg's output as a progress line: `None` where
/// `PROGRESS_PATTERN` does not match; else the captured time (`00:00:00.00`
/// where it took no part), bitrate and speed.
pub fn read_progress_line(line: &str) -> (r: Option<ProgressText>)
    ensures
        match regex_captures(PROGRESS_PATTERN@, line@) {
            None => r is None,
            Some(gs) => r matches Some(p) && p.time@ == match group_at(gs, 1) {
                Some(t) => t,
                None => "00:00:00.00"@,
            } && opt_view(p.bitrate) == group_at(gs, 2) && opt_view(p.speed) == group_at(gs, 3),
        },
{
    let gs = match captures_of(PROGRESS_PATTERN, line) {
        Some(gs) => gs,
        None => {
            return None;
        },
    };
    let time = match group_at_exec(&gs, 1) {
        Some(t) => t,
        None => "00:00:00.00".to_owned(),
    };
    Some(ProgressText { time, bitrate: group_at_exec(&gs, 2), speed: group_at_exec(&gs, 3) })
}

/// Whether the seconds field can be read (see `seconds_field`).
fn seconds_valid(f: &[char]) -> (b: bool)
    ensures
        b == (seconds_field(f@) is Some),
{
    let start: usize = if f.len() > 0 && f[0] == '+' {
        1
    } else {
        0
    };
    let ghost b = unsigned_digits(f@);
    let mut body: Vec<char> = Vec::new();
    let mut i: usize = start;
    while i < f.len()
        invariant
            start <= i <= f@.len(),
            body@ == f@.subrange(start as int, i as int),
        decreases f.len() - i,
    {
        body.push(f[i]);
        i = i + 1;
    }
    assert(body@ =~= b);
    let pieces = split_exec(body.as_slice(), '.');
    let ghost p = split(b, '.');
    assert(views(pieces@) == p);
    if pieces.len() == 1 {
        body.len() > 0 && all_digits_exec(body.as_slice())
    } else if pieces.len() == 2 {
        assert(pieces@[0]@ == p[0] && pieces@[1]@ == p[1]);
        all_digits_exec(pieces[0].as_slice()) && all_digits_exec(pieces[1].as_slice()) && (
        pieces[0].len() > 0 || pieces[1].len() > 0)
    } else {
        false
    }
}

/// Whether the whole seconds of the FFmpeg time `time_str` fit in `u64`
/// (see `time_fits`), as `parse_ffmpeg_time` needs.
pub fn fits_in_time(time_str: &str) -> (b: bool)
    ensures
        b == time_fits(time_str@),
{
    let chars = chars_of(time_str);
    let parts = split_exec(chars.as_slice(), ':');
    let ghost pv = split(time_str@, ':');
    assert(views(parts@) == pv);
    if parts.len() != 3 {
        return true;
    }
    assert(parts@[0]@ == pv[0] && parts@[1]@ == pv[1] && parts@[2]@ == pv[2]);
    let hours: u64 = match parse_u64(parts[0].as_slice()) {
        Some(h) => h,
        None => {
            return true;
        },
    };
    let minutes: u64 = match parse_u64(parts[1].as_slice()) {
        Some(v) => v,
        None => {
            return true;
        },
    };
    if !seconds_valid(parts[2].as_slice()) {
        return true;
    }
    match seconds_exec(parts[2].as_slice()) {
        None => false,
        Some((whole, _)) => (hours as u128) * 3600 + (minutes as u128) * 60 + (whole as u128) <= (
        u64::MAX as u128),
    }
}

/// The seconds field read, with the whole seconds when they fit in `u64`.
fn seconds_exec(f: &[char]) -> (r: Option<(u64, u32)>)
    ensures
        r matches Some((w, n)) ==> seconds_field(f@) == Some((w as nat, n as nat)) && n < 1_000_000_000,
        r is None ==> (seconds_field(f@) is None || seconds_field(f@).unwrap().0 > u64::MAX),
{
    let start: usize = if f.len() > 0 && f[0] == '+' {
        1
    } else {
        0
    };
    let ghost b = unsigned_digits(f@);
    let mut body: Vec<char> = Vec::new();
    let mut i: usize = start;
    while i < f.len()
        invariant
            start <= i <= f@.len(),
            body@ == f@.subrange(start as int, i as int),
        decreases f.len() - i,
    {
        body.push(f[i]);
        i = i + 1;
    }
    assert(body@ =~= b);
    let pieces = split_exec(body.as_slice(), '.');
    let ghost p = split(b, '.');
    assert(views(pieces@) == p);
    if pieces.len() == 1 {
        if body.len() == 0 {
            return None;
        }
        match digits_u64(body.as_slice()) {
            Some(w) => Some((w, 0)),
            None => None,
        }
    } else if pieces.len() == 2 {
        assert(pieces@[0]@ == p[0] && pieces@[1]@ == p[1]);
        if pieces[0].len() == 0 && pieces[1].len() == 0 {
            return None;
        }
        let whole = match digits_u64(pieces[0].as_slice()) {
            Some(w) => w,
            None => {
                return None;
            },
        };
        let frac = &pieces[1];
        let mut nine: Vec<char> = Vec::new();
        let mut k: usize = 0;
        while k < 9
            invariant
                k <= 9,
                nine@ =~= nine_digits(frac@).take(k as int),
            decreases 9 - k,
        {
            if k < frac.len() {
                nine.push(frac[k]);
            } else {
                nine.push('0');
            }
            k = k + 1;
        }
        assert(nine@ =~= nine_digits(frac@));
        if !all_digits_exec(frac.as_slice()) {
            return None;
        }
        proof {
            assert(all_digits(nine@)) by {
                assert forall|j: int| 0 <= j < 9 implies is_digit(#[trigger] nine@[j]) by {
                    if j < frac@.len() {
                        assert(nine@[j] == frac@[j]);
                    }
                }
            }
            lemma_digits_value_bound(nine@);
            reveal_with_fuel(pow10, 10);
            assert(pow10(9) == 1_000_000_000);
        }
        match digits_u64(nine.as_slice()) {
            Some(n) => Some((whole, n as u32)),
            None => None,
        }
    } else {
        None
    }
}

/// Whether every character is an ASCII digit.
fn all_digits_exec(d: &[char]) -> (b: bool)
    ensures
        b == all_digits(d@),
{
    let mut i: usize = 0;
    while i < d.len()
        invariant
            i <= d@.len(),
            forall|k: int| 0 <= k < i ==> is_digit(#[trigger] d@[k]),
        decreases d.len() - i,
    {
        let u = d[i] as u32;
        if !(48 <= u && u <= 57) {
            return false;
        }
        i = i + 1;
    }
    true
}

/// A merge-job builder as plain values.
pub struct MergeJobBuilderView {
    pub input_files: Seq<AudioFile>,
    pub output_path: Option<Seq<char>>,
    pub mode: Option<MergeMode>,
    pub target_bitrate: Option<u32>,
    pub num_threads: Option<usize>,
}

/// Builder for merge jobs.
pub struct MergeJobBuilder {
    input_files: Vec<AudioFile>,
    output_path: Option<String>,
    mode: Option<MergeMode>,
    target_bitrate: Option<u32>,
    num_threads: Option<usize>,
}

impl View for MergeJobBuilder {
    type V = MergeJobBuilderView;

    closed spec fn view(&self) -> MergeJobBuilderView {
        MergeJobBuilderView {
            input_files: self.input_files@,
            output_path: crate::metadata::opt_view(self.output_path),
            mode: self.mode,
            target_bitrate: self.target_bitrate,
            num_threads: self.num_threads,
        }
    }
}

/// A builder with nothing set.
pub open spec fn empty_builder() -> MergeJobBuilderView {
    MergeJobBuilderView {
        input_files: seq![],
        output_path: None,
        mode: None,
        target_bitrate: None,
        num_threads: None,
    }
}

/// The job a builder builds: none without an output path; the mode, when
/// not set, is the one the files call for.
pub open spec fn built_job(b: MergeJobBuilderView) -> Option<MergeJobView> {
    match b.output_path {
        None => None,
        Some(o) => Some(
            MergeJobView {
                input_files: b.input_files,
                output_path: o,
                mode: match b.mode {
                    Some(m) => m,
                    None => mode_for(b.input_files),
                },
                target_bitrate: b.target_bitrate,
                num_threads: b.num_threads,
            },
        ),
    }
}

/// A setter called on a builder, with its argument as a plain value.
pub enum BuilderCall {
    InputFiles(Seq<AudioFile>),
    Output(Seq<char>),
    Mode(MergeMode),
    Bitrate(u32),
    Threads(usize),
}

/// The builder after setter `c` (see the setters' own `ensures`).
pub open spec fn apply_call(b: MergeJobBuilderView, c: BuilderCall) -> MergeJobBuilderView {
    match c {
        BuilderCall::InputFiles(fs) => MergeJobBuilderView { input_files: fs, ..b },
        BuilderCall::Output(p) => MergeJobBuilderView { output_path: Some(p), ..b },
        BuilderCall::Mode(m) => MergeJobBuilderView { mode: Some(m), ..b },
        BuilderCall::Bitrate(k) => MergeJobBuilderView { target_bitrate: Some(k), ..b },
        BuilderCall::Threads(t) => MergeJobBuilderView { num_threads: Some(t), ..b },
    }
}

/// The builder after the setters `cs`, in order.
pub open spec fn apply_calls(b: MergeJobBuilderView, cs: Seq<BuilderCall>) -> MergeJobBuilderView
    decreases cs.len(),
{
    if cs.len() == 0 {
        b
    } else {
        apply_call(apply_calls(b, cs.drop_last()), cs.last())
    }
}

/// The files of the last `input_files` call of `cs`, if any.
pub open spec fn last_files(cs: Seq<BuilderCall>) -> Option<Seq<AudioFile>>
    decreases cs.len(),
{
    if cs.len() == 0 {
        None
    } else {
        match cs.last() {
            BuilderCall::InputFiles(fs) => Some(fs),
            _ => last_files(cs.drop_last()),
        }
    }
}

/// The path of the last `output` call of `cs`, if any.
pub open spec fn last_output(cs: Seq<BuilderCall>) -> Option<Seq<char>>
    decreases cs.len(),
{
    if cs.len() == 0 {
        None
    } else {
        match cs.last() {
            BuilderCall::Output(p) => Some(p),
            _ => last_output(cs.drop_last()),
        }
    }
}

/// The mode of the last `mode` call of `cs`, if any.
pub open spec fn last_mode(cs: Seq<BuilderCall>) -> Option<MergeMode>
    decreases cs.len(),
{
    if cs.len() == 0 {
        None
    } else {
        match cs.last() {
            BuilderCall::Mode(m) => Some(m),
            _ => last_mode(cs.drop_last()),
        }
    }
}

/// The bitrate of the last `bitrate` call of `cs`, if any.
pub open spec fn last_bitrate(cs: Seq<BuilderCall>) -> Option<u32>
    decreases cs.len(),
{
    if cs.len() == 0 {
        None
    } else {
        match cs.last() {
            BuilderCall::Bitrate(k) => Some(k),
            _ => last_bitrate(cs.drop_last()),
        }
    }
}

/// The thread count of the last `threads` call of `cs`, if any.
pub open spec fn last_threads(cs: Seq<BuilderCall>) -> Option<usize>
    decreases cs.len(),
{
    if cs.len() == 0 {
        None
    } else {
        match cs.last() {
            BuilderCall::Threads(t) => Some(t),
            _ => last_threads(cs.drop_last()),
        }
    }
}

/// A new builder after the setters `cs` holds what the last call of each
/// setter set.
proof fn lemma_apply_calls(cs: Seq<BuilderCall>)
    ensures
        apply_calls(empty_builder(), cs) == (MergeJobBuilderView {
            input_files: match last_files(cs) {
                Some(fs) => fs,
                None => seq![],
            },
            output_path: last_output(cs),
            mode: last_mode(cs),
            target_bitrate: last_bitrate(cs),
            num_threads: last_threads(cs),
        }),
    decreases cs.len(),
{
    if cs.len() > 0 {
        lemma_apply_calls(cs.drop_last());
    }
}

/// Law of `MergeJobBuilder::build` over any sequence of setter calls:
/// `MergeJobBuilder::new()` (whose view is `empty_builder()`), then the
/// setters `cs` in order (each setter's `ensures` is `apply_call` with its
/// call), then `build` (which gives `built_job` of the view). The build
/// fails with `NoOutputPath` exactly when `output` was never called;
/// otherwise the job holds the files of the last `input_files` call (none
/// without one), the path of the last `output` call, the mode of the last
/// `mode` call or else `MergeMode::from_files` of those files, and the last
/// bitrate and thread count set, `None` where never set.
pub proof fn lemma_build_after_calls(cs: Seq<BuilderCall>)
    ensures
        built_job(apply_calls(empty_builder(), cs)) == match last_output(cs) {
            None => None,
            Some(o) => {
                let fs = match last_files(cs) {
                    Some(fs) => fs,
                    None => seq![],
                };
                Some(
                    MergeJobView {
                        input_files: fs,
                        output_path: o,
                        mode: match last_mode(cs) {
                            Some(m) => m,
                            None => mode_for(fs),
                        },
                        target_bitrate: last_bitrate(cs),
                        num_threads: last_threads(cs),
                    },
                )
            },
        },
{
    lemma_apply_calls(cs);
}

impl MergeJobBuilder {
    /// A builder with nothing set.
    pub fn new() -> (b: MergeJobBuilder)
        ensures
            b@ == empty_builder(),
    {
        MergeJobBuilder {
            input_files: Vec::new(),
            output_path: None,
            mode: None,
            target_bitrate: None,
            num_threads: None,
        }
    }

    /// Sets the input files.
    pub fn input_files(self, files: Vec<AudioFile>) -> (b: MergeJobBuilder)
        ensures
            b@ == (MergeJobBuilderView { input_files: files@, ..self@ }),
            b@ == apply_call(self@, BuilderCall::InputFiles(files@)),
    {
        let mut s = self;
        s.input_files = files;
        s
    }

    /// Sets the output path.
    pub fn output(self, path: &str) -> (b: MergeJobBuilder)
        ensures
            b@ == (MergeJobBuilderView { output_path: Some(path@), ..self@ }),
            b@ == apply_call(self@, BuilderCall::Output(path@)),
    {
        let mut s = self;
        s.output_path = Some(path.to_owned());
        s
    }

    /// Sets the merge mode.
    pub fn mode(self, mode: MergeMode) -> (b: MergeJobBuilder)
        ensures
            b@ == (MergeJobBuilderView { mode: Some(mode), ..self@ }),
            b@ == apply_call(self@, BuilderCall::Mode(mode)),
    {
        let mut s = self;
        s.mode = Some(mode);
        s
    }

    /// Sets the target bitrate.
    pub fn bitrate(self, bitrate: u32) -> (b: MergeJobBuilder)
        ensures
            b@ == (MergeJobBuilderView { target_bitrate: Some(bitrate), ..self@ }),
            b@ == apply_call(self@, BuilderCall::Bitrate(bitrate)),
    {
        let mut s = self;
        s.target_bitrate = Some(bitrate);
        s
    }

    /// Sets the number of threads.
    pub fn threads(self, threads: usize) -> (b: MergeJobBuilder)
        ensures
            b@ == (MergeJobBuilderView { num_threads: Some(threads), ..self@ }),
            b@ == apply_call(self@, BuilderCall::Threads(threads)),
    {
        let mut s = self;
        s.num_threads = Some(threads);
        s
    }

    /// Builds the job; fails with `NoOutputPath` when no output was set.
    pub fn build(self) -> (r: Result<MergeJob, MergeError>)
        ensures
            built_job(self@) matches Some(j) ==> (r matches Ok(job) && job@ == j),
            built_job(self@) is None ==> r matches Err(MergeError::NoOutputPath),
    {
        let output_path = match self.output_path {
            Some(p) => p,
            None => {
                return Err(MergeError::NoOutputPath);
            },
        };
        let mode = match self.mode {
            Some(m) => m,
            None => MergeMode::from_files(self.input_files.as_slice()),
        };
        Ok(
            MergeJob {
                input_files: self.input_files,
                output_path,
                mode,
                target_bitrate: self.target_bitrate,
                num_threads: self.num_threads,
            },
        )
    }
}

impl Default for MergeJobBuilder {
    fn default() -> (b: MergeJobBuilder)
        ensures
            b@ == empty_builder(),
    {
        MergeJobBuilder::new()
    }
}

/// The mode chosen for files is copy exactly when the files can be merged
/// without re-encoding.
pub proof fn lemma_copy_mode_iff_copyable(files: Seq<AudioFile>)
    ensures
        (mode_for(files) == MergeMode::Copy) == all_m4(files),
{
}

/// Building with input files and an output path, and nothing else set,
/// gives the job that `MergeJob::new` makes of them.
pub proof fn lemma_builder_matches_new(files: Seq<AudioFile>, output: Seq<char>)
    ensures
        built_job(
            MergeJobBuilderView {
                input_files: files,
                output_path: Some(output),
                mode: None,
                target_bitrate: None,
                num_threads: None,
            },
        ) == Some(new_job(files, output)),
{
}

/// A job that validates has input files, all of them present, and in copy
/// mode only M4A/M4B files.
pub proof fn lemma_valid_job(j: MergeJobView, present: Seq<bool>)
    requires
        validation_outcome(j, present, Ok(())),
    ensures
        j.input_files.len() > 0,
        forall|i: int| 0 <= i < present.len() ==> #[trigger] present[i],
        j.mode == MergeMode::Copy ==> all_m4(j.input_files),
{
    lemma_first_missing_none(present);
}

/// With no missing entry, every entry is present.
pub(crate) proof fn lemma_first_missing_none(s: Seq<bool>)
    ensures
        first_missing(s) is None ==> forall|i: int| 0 <= i < s.len() ==> #[trigger] s[i],
    decreases s.len(),
{
    if s.len() > 0 {
        lemma_first_missing_none(s.drop_last());
        if first_missing(s) is None {
            assert forall|i: int| 0 <= i < s.len() implies #[trigger] s[i] by {
                if i < s.len() - 1 {
                    assert(s[i] == s.drop_last()[i]);
                }
            }
        }
    }
}

/// Law: where every known bitrate of the files is `b` (bit/s), the files
/// are encoded at the standard bitrate closest to `b` in kbit/s.
pub proof fn lemma_uniform_bitrate(fs: Seq<AudioFile>, b: u32)
    requires
        known_bitrates(fs).len() > 0,
        forall|i: int| 0 <= i < known_bitrates(fs).len() ==> #[trigger] known_bitrates(fs)[i] == b,
    ensures
        bitrate_from_files(fs) == Some(Some(closest_in(standard_bitrates(), b / 1000))),
{
    let s = known_bitrates(fs);
    assert(fs.len() > 0) by {
        if fs.len() == 0 {
            assert(s =~= Seq::<u32>::empty());
        }
    }
    assert(is_most_common(s, b)) by {
        assert(s[0] == b);
        assert forall|j: int| 0 <= j < s.len() implies count_in(s, #[trigger] s[j]) <= count_in(s, b) by {
            assert(s[j] == b);
        }
    }
    lemma_most_common_unique(s, b, most_common(s));
}

/// A standard bitrate rounds to itself.
pub proof fn lemma_standard_rounds_to_itself(b: u32)
    requires
        standard_bitrates().contains(b),
    ensures
        closest_in(standard_bitrates(), b) == b,
{
    let s = standard_bitrates();
    let k = choose|k: int| 0 <= k < s.len() && s[k] == b;
    lemma_closest_in(s, b);
    assert(bitrate_distance(b, b) == 0);
    reveal_with_fuel(closest_in, 7);
    assert(s.drop_first() =~= seq![96u32, 128, 192, 256, 320]);
    assert(s.drop_first().drop_first() =~= seq![128u32, 192, 256, 320]);
    assert(s.drop_first().drop_first().drop_first() =~= seq![192u32, 256, 320]);
    assert(s.drop_first().drop_first().drop_first().drop_first() =~= seq![256u32, 320]);
    assert(s.drop_first().drop_first().drop_first().drop_first().drop_first() =~= seq![320u32]);
}

/// The stages of running a merge job.
#[derive(Debug, Clone, Copy, PartialEq, Eq, Structural)]
pub enum MergePhase {
    Start,
    Checking,
    Detecting,
    Listing,
    PreparingDir,
    Running,
    Done,
}

/// What running a merge job has gathered so far.
pub struct MergeState {
    /// The stage it waits in.
    pub phase: MergePhase,
    /// The bitrate to encode at, once chosen.
    pub target_bitrate: Option<u32>,
    /// Where the concat list was written, once it was.
    pub list_path: String,
}

/// The outcome of the last piece of work on a merge.
pub enum MergeEvent {
    /// The merge starts.
    Begin,
    /// Whether each input file exists, in order.
    FilesChecked(Vec<bool>),
    /// The bitrate detected from the inputs (`None` where detection failed).
    BitrateDetected(Option<u32>),
    /// Writing the concat list ended, with its path or the error.
    ListWritten(Result<String, MergeError>),
    /// Creating the output's directory ended.
    DirPrepared(Result<(), std::io::Error>),
    /// The single-file copy ran: whether FFmpeg succeeded and its standard
    /// error, or the error that kept it from running.
    SingleRan(Result<(bool, Vec<u8>), MergeError>),
    /// The concat merge ran: whether FFmpeg succeeded, its exit code and
    /// whether the output exists, or the error that kept it from running.
    ConcatRan(Result<(bool, Option<i32>, bool), MergeError>),
}

/// The next piece of work on a merge.
pub enum MergeAction {
    /// Check whether each input file exists.
    CheckFiles,
    /// Detect the bitrate of the inputs.
    DetectBitrate,
    /// Write the concat list of the inputs to a temporary file.
    WriteList,
    /// Create this directory (the output's parent), where there is one.
    PrepareDir(Option<String>),
    /// Run FFmpeg with these arguments to copy the single input.
    RunSingle(Vec<String>),
    /// Run FFmpeg with these arguments to concatenate the inputs.
    RunConcat(Vec<String>),
    /// The merge is over, with the output path or the error.
    Finish(Result<String, MergeError>),
}

/// Whether `event` is the outcome that a merge of `job` in `phase` waits for.
pub open spec fn merge_accepts(job: MergeJob, phase: MergePhase, event: MergeEvent) -> bool {
    match event {
        MergeEvent::Begin => phase == MergePhase::Start,
        MergeEvent::FilesChecked(p) => phase == MergePhase::Checking && p@.len()
            == job.input_files@.len(),
        MergeEvent::BitrateDetected(_) => phase == MergePhase::Detecting,
        MergeEvent::ListWritten(_) => phase == MergePhase::Listing,
        MergeEvent::DirPrepared(_) => phase == MergePhase::PreparingDir,
        MergeEvent::SingleRan(_) => phase == MergePhase::Running && job.input_files@.len() == 1,
        MergeEvent::ConcatRan(_) => phase == MergePhase::Running && job.input_files@.len() != 1,
    }
}

/// The merge ends with `r`.
pub open spec fn merge_finished(r: Result<String, MergeError>, s: MergeState, a: MergeAction) -> bool {
    &&& s.phase == MergePhase::Done
    &&& a == MergeAction::Finish(r)
}

/// Once the bitrate is chosen as `target`, the concat list is written.
pub open spec fn list_planned(target: Option<u32>, s: MergeState, a: MergeAction) -> bool {
    &&& s.phase == MergePhase::Listing
    &&& s.target_bitrate == target
    &&& a is WriteList
}

/// Whether `s` and `a` follow `state` on `event` in running `job`: the files
/// are checked as `validate` does; in transcode mode without a bitrate the
/// bitrate is detected; the concat list is written, the output's directory
/// created, then a single input is copied and several are concatenated,
/// with what FFmpeg's run means as the outcome.
pub open spec fn merge_next(job: MergeJob, state: MergeState, event: MergeEvent, s: MergeState, a: MergeAction) -> bool {
    match event {
        MergeEvent::Begin => s.phase == MergePhase::Checking && a is CheckFiles,
        MergeEvent::FilesChecked(present) => {
            if validation_outcome(job@, present@, Ok(())) {
                if job.mode == MergeMode::Transcode && job.target_bitrate is None {
                    s.phase == MergePhase::Detecting && a is DetectBitrate
                } else {
                    list_planned(target_bitrate_of(job.mode, job.target_bitrate, None), s, a)
                }
            } else {
                a matches MergeAction::Finish(Err(e)) && s.phase == MergePhase::Done
                    && validation_outcome(job@, present@, Err(e))
            }
        },
        MergeEvent::BitrateDetected(d) => list_planned(
            target_bitrate_of(job.mode, job.target_bitrate, d),
            s,
            a,
        ),
        MergeEvent::ListWritten(r) => match r {
            Err(e) => merge_finished(Err(e), s, a),
            Ok(path) => {
                &&& s.phase == MergePhase::PreparingDir
                &&& s.list_path == path
                &&& s.target_bitrate == state.target_bitrate
                &&& a matches MergeAction::PrepareDir(d)
                &&& opt_view(d) == crate::paths::path_parent(job.output_path@)
            },
        },
        MergeEvent::DirPrepared(r) => match r {
            Err(e) => merge_finished(Err(MergeError::Io(e)), s, a),
            Ok(_) => {
                &&& s.phase == MergePhase::Running
                &&& if job.input_files@.len() == 1 {
                    a matches MergeAction::RunSingle(args) && string_views(args@)
                        == single_file_args_of(
                        job.input_files@[0].path@,
                        state.target_bitrate,
                        job.output_path@,
                    )
                } else {
                    a matches MergeAction::RunConcat(args) && string_views(args@)
                        == concat_merge_args_of(
                        job.num_threads,
                        state.list_path@,
                        job.mode,
                        state.target_bitrate,
                        job.output_path@,
                    )
                }
            },
        },
        MergeEvent::SingleRan(r) => s.phase == MergePhase::Done && match r {
            Err(e) => a == MergeAction::Finish(Err(e)),
            Ok((success, stderr)) => a matches MergeAction::Finish(o) && single_outcome_is(
                success,
                stderr@,
                job.output_path@,
                o,
            ),
        },
        MergeEvent::ConcatRan(r) => s.phase == MergePhase::Done && match r {
            Err(e) => a == MergeAction::Finish(Err(e)),
            Ok((success, code, exists)) => a matches MergeAction::Finish(o) && concat_outcome_is(
                success,
                code,
                exists,
                job.output_path@,
                o,
            ),
        },
    }
}

impl MergeState {
    /// A merge about to start.
    pub fn new() -> (s: MergeState)
        ensures
            s.phase == MergePhase::Start,
            s.target_bitrate is None,
            s.list_path@.len() == 0,
    {
        MergeState { phase: MergePhase::Start, target_bitrate: None, list_path: String::new() }
    }

    /// Whether `event` is the outcome a merge of `job` waits for.
    pub fn accepts(&self, job: &MergeJob, event: &MergeEvent) -> (b: bool)
        ensures
            b == merge_accepts(*job, self.phase, *event),
    {
        match event {
            MergeEvent::Begin => self.phase == MergePhase::Start,
            MergeEvent::FilesChecked(p) => self.phase == MergePhase::Checking && p.len()
                == job.input_files.len(),
            MergeEvent::BitrateDetected(_) => self.phase == MergePhase::Detecting,
            MergeEvent::ListWritten(_) => self.phase == MergePhase::Listing,
            MergeEvent::DirPrepared(_) => self.phase == MergePhase::PreparingDir,
            MergeEvent::SingleRan(_) => self.phase == MergePhase::Running && job.input_files.len() == 1,
            MergeEvent::ConcatRan(_) => self.phase == MergePhase::Running && job.input_files.len() != 1,
        }
    }
}

/// One step of running a merge job; see `merge_next`.
pub fn merge_step(job: &MergeJob, state: MergeState, event: MergeEvent) -> (r: (MergeState, MergeAction))
    requires
        merge_accepts(*job, state.phase, event),
    ensures
        merge_next(*job, state, event, r.0, r.1),
{
    match event {
        MergeEvent::Begin => (MergeState { phase: MergePhase::Checking, ..state }, MergeAction::CheckFiles),
        MergeEvent::FilesChecked(present) => {
            match job.validate_given(present.as_slice()) {
                Err(e) => (MergeState { phase: MergePhase::Done, ..state }, MergeAction::Finish(Err(e))),
                Ok(()) => {
                    let transcode = match job.mode {
                        MergeMode::Transcode => true,
                        MergeMode::Copy => false,
                    };
                    if transcode && job.target_bitrate.is_none() {
                        (MergeState { phase: MergePhase::Detecting, ..state }, MergeAction::DetectBitrate)
                    } else {
                        let target = choose_target_bitrate(job.mode, job.target_bitrate, None);
                        (
                            MergeState { phase: MergePhase::Listing, target_bitrate: target, ..state },
                            MergeAction::WriteList,
                        )
                    }
                },
            }
        },
        MergeEvent::BitrateDetected(d) => {
            let target = choose_target_bitrate(job.mode, job.target_bitrate, d);
            (MergeState { phase: MergePhase::Listing, target_bitrate: target, ..state }, MergeAction::WriteList)
        },
        MergeEvent::ListWritten(r) => match r {
            Err(e) => (MergeState { phase: MergePhase::Done, ..state }, MergeAction::Finish(Err(e))),
            Ok(path) => {
                let parent = crate::paths::parent_of(job.output_path.as_str());
                (
                    MergeState { phase: MergePhase::PreparingDir, list_path: path, ..state },
                    MergeAction::PrepareDir(parent),
                )
            },
        },
        MergeEvent::DirPrepared(r) => match r {
            Err(e) => (MergeState { phase: MergePhase::Done, ..state }, MergeAction::Finish(Err(MergeError::Io(e)))),
            Ok(_) => {
                if job.input_files.len() == 1 {
                    let args = single_file_args(
                        job.input_files[0].path.as_str(),
                        job.output_path.as_str(),
                        state.target_bitrate,
                    );
                    (MergeState { phase: MergePhase::Running, ..state }, MergeAction::RunSingle(args))
                } else {
                    let args = concat_merge_args(job, state.list_path.as_str(), state.target_bitrate);
                    (MergeState { phase: MergePhase::Running, ..state }, MergeAction::RunConcat(args))
                }
            },
        },
        MergeEvent::SingleRan(r) => {
            let outcome = match r {
                Err(e) => Err(e),
                Ok((success, stderr)) => single_copy_outcome(success, stderr.as_slice(), job.output_path.as_str()),
            };
            (MergeState { phase: MergePhase::Done, ..state }, MergeAction::Finish(outcome))
        },
        MergeEvent::ConcatRan(r) => {
            let outcome = match r {
                Err(e) => Err(e),
                Ok((success, code, exists)) => concat_merge_outcome(success, code, exists, job.output_path.as_str()),
            };
            (MergeState { phase: MergePhase::Done, ..state }, MergeAction::Finish(outcome))
        },
    }
}

/// Law: one file with a target bitrate `b` is re-encoded to AAC at `b`
/// kbit/s (`-c:a aac -b:a <b>k`, the codec arguments of transcode mode);
/// only without a target bitrate is its stream copied (`-c copy`).
pub proof fn lemma_single_file_codec(input: Seq<char>, output: Seq<char>, target: Option<u32>)
    ensures
        target matches Some(b) ==> single_file_args_of(input, target, output) == seq![
            "-i"@,
            input,
            "-c:a"@,
            "aac"@,
            "-b:a"@,
            dec(b as nat) + seq!['k'],
            "-y"@,
            output,
        ],
        target matches Some(b) ==> single_file_args_of(input, target, output) == seq!["-i"@, input]
            + codec_args_of(MergeMode::Transcode, target) + seq!["-y"@, output],
        target is None ==> single_file_args_of(input, target, output) == seq![
            "-i"@,
            input,
            "-c"@,
            "copy"@,
            "-y"@,
            output,
        ],
{
    let args = single_file_args_of(input, target, output);
    match target {
        Some(b) => {
            assert(args =~= seq![
                "-i"@,
                input,
                "-c:a"@,
                "aac"@,
                "-b:a"@,
                dec(b as nat) + seq!['k'],
                "-y"@,
                output,
            ]);
            assert(args =~= seq!["-i"@, input] + codec_args_of(MergeMode::Transcode, target) + seq![
                "-y"@,
                output,
            ]);
        },
        None => {
            assert(args =~= seq!["-i"@, input, "-c"@, "copy"@, "-y"@, output]);
        },
    }
}

} // verus!
