//! Audio files: their formats, metadata, grouping by directory and disc, and
//! the natural order in which they are merged.

use vstd::prelude::*;

use crate::duration::{max_nanos, Duration};
use crate::ffmpeg::{AudioMetadata, FFmpegError};
use crate::metadata::opt_view;
use crate::paths::{extension_of, file_name_of, parent_of, path_extension, path_file_name, path_parent};
use crate::text::{ascii_lower, chars_of, eq_ignore_ascii_case, eq_ignore_ascii_case_exec, parse_u32, parse_unsigned};

verus! {

/// Errors that can occur during file discovery.
#[derive(Debug)]
pub enum DiscoveryError {
    FileNotFound(String),
    PermissionDenied(String),
    InvalidFormat(String),
    UnsupportedExtension(String),
    InvalidPath(String),
    DirectoryNotFound(String),
    IoError(std::io::Error),
    FFmpegError(FFmpegError),
    NoAudioFiles(String),
    MetadataError(String),
}

/// Whether `s` is the message of `e`; the text of an I/O error is std's
/// own.
pub open spec fn discovery_message(e: DiscoveryError, s: Seq<char>) -> bool {
    &&& (e matches DiscoveryError::FileNotFound(p) ==>
        s == "File not found: "@ + p@)
    &&& (e matches DiscoveryError::PermissionDenied(p) ==>
        s == "Permission denied: "@ + p@)
    &&& (e matches DiscoveryError::InvalidFormat(p) ==>
        s == "Invalid file format: "@ + p@)
    &&& (e matches DiscoveryError::UnsupportedExtension(e) ==>
        s == "Unsupported file extension: "@ + e@)
    &&& (e matches DiscoveryError::InvalidPath(p) ==>
        s == "Path is not a file or directory: "@ + p@)
    &&& (e matches DiscoveryError::DirectoryNotFound(p) ==>
        s == "Directory not found: "@ + p@)
    &&& (e matches DiscoveryError::IoError(_) ==>
        exists|t: Seq<char>| s == "IO error: "@ + t)
    &&& (e matches DiscoveryError::FFmpegError(f) ==>
        exists|t: Seq<char>| s == "FFmpeg error: "@ + t && crate::ffmpeg::ffmpeg_message(f, t))
    &&& (e matches DiscoveryError::NoAudioFiles(p) ==>
        s == "No audio files found in: "@ + p@)
    &&& (e matches DiscoveryError::MetadataError(p) ==>
        s == "Failed to read metadata for: "@ + p@)
}

impl DiscoveryError {
    /// The error message.
    pub fn to_string(&self) -> (s: String)
        ensures
            discovery_message(*self, s@),
    {
        let mut out: Vec<char> = Vec::new();
        match self {
            DiscoveryError::FileNotFound(p) => {
                crate::text::extend_str(&mut out, "File not found: ");
                crate::text::extend_str(&mut out, p.as_str());
            },
            DiscoveryError::PermissionDenied(p) => {
                crate::text::extend_str(&mut out, "Permission denied: ");
                crate::text::extend_str(&mut out, p.as_str());
            },
            DiscoveryError::InvalidFormat(p) => {
                crate::text::extend_str(&mut out, "Invalid file format: ");
                crate::text::extend_str(&mut out, p.as_str());
            },
            DiscoveryError::UnsupportedExtension(e) => {
                crate::text::extend_str(&mut out, "Unsupported file extension: ");
                crate::text::extend_str(&mut out, e.as_str());
            },
            DiscoveryError::InvalidPath(p) => {
                crate::text::extend_str(&mut out, "Path is not a file or directory: ");
                crate::text::extend_str(&mut out, p.as_str());
            },
            DiscoveryError::DirectoryNotFound(p) => {
                crate::text::extend_str(&mut out, "Directory not found: ");
                crate::text::extend_str(&mut out, p.as_str());
            },
            DiscoveryError::IoError(e) => {
                crate::text::extend_str(&mut out, "IO error: ");
                let t = crate::outside_types::io_error_text(e);
                crate::text::extend_str(&mut out, t.as_str());
            },
            DiscoveryError::FFmpegError(e) => {
                crate::text::extend_str(&mut out, "FFmpeg error: ");
                let t = e.to_string();
                crate::text::extend_str(&mut out, t.as_str());
            },
            DiscoveryError::NoAudioFiles(p) => {
                crate::text::extend_str(&mut out, "No audio files found in: ");
                crate::text::extend_str(&mut out, p.as_str());
            },
            DiscoveryError::MetadataError(p) => {
                crate::text::extend_str(&mut out, "Failed to read metadata for: ");
                crate::text::extend_str(&mut out, p.as_str());
            },
        }
        crate::text::string_of(out.as_slice())
    }
}

/// Supported audio formats.
#[derive(Debug, Clone, Copy, PartialEq, Eq, Hash, Structural)]
pub enum AudioFormat {
    MP3,
    M4A,
    M4B,
}

/// The format whose extension `e` is, compared ignoring ASCII case.
pub open spec fn format_of_extension(e: Seq<char>) -> Option<AudioFormat> {
    if eq_ignore_ascii_case(e, seq!['m', 'p', '3']) {
        Some(AudioFormat::MP3)
    } else if eq_ignore_ascii_case(e, seq!['m', '4', 'a']) {
        Some(AudioFormat::M4A)
    } else if eq_ignore_ascii_case(e, seq!['m', '4', 'b']) {
        Some(AudioFormat::M4B)
    } else {
        None
    }
}

/// The format of the file at path `p`, from its extension.
pub open spec fn format_of_path(p: Seq<char>) -> Option<AudioFormat> {
    match path_extension(p) {
        Some(e) => format_of_extension(e),
        None => None,
    }
}

impl AudioFormat {
    /// The file extensions of this format.
    pub fn extensions(&self) -> (r: Vec<&'static str>)
        ensures
            r@.len() == 1,
            r@[0]@ == match self {
                AudioFormat::MP3 => "mp3"@,
                AudioFormat::M4A => "m4a"@,
                AudioFormat::M4B => "m4b"@,
            },
    {
        match self {
            AudioFormat::MP3 => vec!["mp3"],
            AudioFormat::M4A => vec!["m4a"],
            AudioFormat::M4B => vec!["m4b"],
        }
    }

    /// All supported extensions.
    pub fn all_extensions() -> (r: Vec<&'static str>)
        ensures
            r@.len() == 3,
            r@[0]@ == "mp3"@,
            r@[1]@ == "m4a"@,
            r@[2]@ == "m4b"@,
    {
        vec!["mp3", "m4a", "m4b"]
    }

    /// The format with extension `ext`, ignoring case.
    pub fn from_extension(ext: &str) -> (r: Option<AudioFormat>)
        ensures
            r == format_of_extension(ext@),
    {
        let e = chars_of(ext);
        let mp3 = ['m', 'p', '3'];
        let m4a = ['m', '4', 'a'];
        let m4b = ['m', '4', 'b'];
        assert(mp3@ =~= seq!['m', 'p', '3']);
        assert(m4a@ =~= seq!['m', '4', 'a']);
        assert(m4b@ =~= seq!['m', '4', 'b']);
        if eq_ignore_ascii_case_exec(e.as_slice(), &mp3) {
            Some(AudioFormat::MP3)
        } else if eq_ignore_ascii_case_exec(e.as_slice(), &m4a) {
            Some(AudioFormat::M4A)
        } else if eq_ignore_ascii_case_exec(e.as_slice(), &m4b) {
            Some(AudioFormat::M4B)
        } else {
            None
        }
    }

    /// The format of the file at `path`, from its extension.
    pub fn from_path(path: &str) -> (r: Option<AudioFormat>)
        ensures
            r == format_of_path(path@),
    {
        match extension_of(path) {
            Some(e) => AudioFormat::from_extension(e.as_str()),
            None => None,
        }
    }

    /// The format's display name.
    pub fn to_string(&self) -> (s: String)
        ensures
            s@ == match self {
                AudioFormat::MP3 => "MP3"@,
                AudioFormat::M4A => "M4A"@,
                AudioFormat::M4B => "M4B"@,
            },
    {
        match self {
            AudioFormat::MP3 => "MP3".to_owned(),
            AudioFormat::M4A => "M4A".to_owned(),
            AudioFormat::M4B => "M4B".to_owned(),
        }
    }
}

/// File metadata extracted from an audio file.
#[derive(Debug, Clone, Default, PartialEq)]
pub struct FileMetadata {
    pub duration: Duration,
    pub bitrate: u32,
    pub sample_rate: u32,
    pub channels: u8,
    pub codec: String,
}

/// Whether `f` is the file metadata that probed metadata `m` gives: missing
/// values become zero or empty, a bit rate beyond `u32` saturates, and the
/// channel count keeps its low eight bits.
pub open spec fn describes(f: FileMetadata, m: AudioMetadata) -> bool {
    &&& f.duration@ == match m.duration {
        Some(d) => d@,
        None => 0,
    }
    &&& f.bitrate == match m.bitrate {
        Some(b) => if b <= u32::MAX {
            b as u32
        } else {
            u32::MAX
        },
        None => 0,
    }
    &&& f.sample_rate == match m.sample_rate {
        Some(r) => r,
        None => 0,
    }
    &&& f.channels == match m.channels {
        Some(c) => c as u8,
        None => 0,
    }
    &&& f.codec@ == match m.codec {
        Some(c) => c@,
        None => Seq::<char>::empty(),
    }
}

impl FileMetadata {
    /// File metadata from probed metadata: missing values become zero or
    /// empty, a bit rate beyond `u32` saturates, and the channel count keeps
    /// its low eight bits.
    pub fn from_audio_metadata(m: AudioMetadata) -> (f: FileMetadata)
        ensures
            describes(f, m),
    {
        let duration = match m.duration {
            Some(d) => d,
            None => Duration::zero(),
        };
        let bitrate: u32 = match m.bitrate {
            Some(b) => if b <= u32::MAX as u64 {
                b as u32
            } else {
                u32::MAX
            },
            None => 0,
        };
        let sample_rate: u32 = match m.sample_rate {
            Some(r) => r,
            None => 0,
        };
        let channels: u8 = match m.channels {
            Some(c) => c as u8,
            None => 0,
        };
        let codec = match m.codec {
            Some(c) => c,
            None => String::new(),
        };
        FileMetadata { duration, bitrate, sample_rate, channels, codec }
    }

    /// A copy of this metadata.
    pub fn copy(&self) -> (r: FileMetadata)
        ensures
            r == *self,
    {
        FileMetadata {
            duration: self.duration,
            bitrate: self.bitrate,
            sample_rate: self.sample_rate,
            channels: self.channels,
            codec: self.codec.clone(),
        }
    }
}

impl From<AudioMetadata> for FileMetadata {
    fn from(m: AudioMetadata) -> FileMetadata {
        FileMetadata::from_audio_metadata(m)
    }
}

impl vstd::std_specs::convert::FromSpecImpl<AudioMetadata> for FileMetadata {
    open spec fn obeys_from_spec() -> bool {
        false
    }

    open spec fn from_spec(m: AudioMetadata) -> FileMetadata {
        arbitrary()
    }
}

/// The outcome of trying to open a file for reading.
#[derive(Debug)]
pub enum OpenCheck {
    /// The file opened.
    Opened,
    /// Opening was refused for lack of permission.
    PermissionDenied,
    /// Opening failed for another reason.
    Failed(std::io::Error),
}

/// A discovered audio file.
#[derive(Debug, Clone)]
pub struct AudioFile {
    pub path: String,
    pub format: AudioFormat,
    pub metadata: Option<FileMetadata>,
}

/// The file name of path `p`, or the empty text.
pub open spec fn file_name_text(p: Seq<char>) -> Seq<char> {
    match path_file_name(p) {
        Some(n) => n,
        None => seq![],
    }
}

impl AudioFile {
    /// An audio file at `path`, given what checking the file found: it must
    /// exist, be a file, open for reading, and have a supported extension.
    pub fn new_checked(path: String, exists: bool, is_file: bool, open: OpenCheck) -> (r: Result<
        AudioFile,
        DiscoveryError,
    >)
        ensures
            !exists ==> (r matches Err(DiscoveryError::FileNotFound(p)) && p@ == path@),
            exists && !is_file ==> (r matches Err(DiscoveryError::InvalidPath(p)) && p@ == path@),
            exists && is_file && open is PermissionDenied ==> (r matches Err(
                DiscoveryError::PermissionDenied(p),
            ) && p@ == path@),
            exists && is_file && open is Failed ==> r matches Err(DiscoveryError::IoError(_)),
            exists && is_file && open is Opened ==> match format_of_path(path@) {
                Some(f) => (r matches Ok(a) && a.path@ == path@ && a.format == f && a.metadata is None),
                None => (r matches Err(DiscoveryError::InvalidFormat(p)) && p@ == path@),
            },
    {
        if !exists {
            return Err(DiscoveryError::FileNotFound(path));
        }
        if !is_file {
            return Err(DiscoveryError::InvalidPath(path));
        }
        match open {
            OpenCheck::Opened => {},
            OpenCheck::PermissionDenied => {
                return Err(DiscoveryError::PermissionDenied(path));
            },
            OpenCheck::Failed(e) => {
                return Err(DiscoveryError::IoError(e));
            },
        }
        match AudioFormat::from_path(path.as_str()) {
            Some(format) => Ok(AudioFile { path, format, metadata: None }),
            None => Err(DiscoveryError::InvalidFormat(path)),
        }
    }

    /// Records the outcome of probing this file: the metadata on success, the
    /// FFmpeg error otherwise.
    pub fn apply_probe(&mut self, probed: Result<AudioMetadata, FFmpegError>) -> (r: Result<
        (),
        DiscoveryError,
    >)
        ensures
            final(self).path == old(self).path,
            final(self).format == old(self).format,
            probed is Ok <==> r is Ok,
            probed is Err ==> final(self).metadata == old(self).metadata,
            probed matches Err(e) ==> r == Err::<(), DiscoveryError>(DiscoveryError::FFmpegError(e)),
            probed matches Ok(m) ==> (final(self).metadata matches Some(f) && describes(f, m)),
    {
        match probed {
            Ok(m) => {
                self.metadata = Some(FileMetadata::from_audio_metadata(m));
                Ok(())
            },
            Err(e) => Err(DiscoveryError::FFmpegError(e)),
        }
    }

    /// The file name, or the empty string when the path has none.
    pub fn filename(&self) -> (s: String)
        ensures
            s@ == file_name_text(self.path@),
    {
        match file_name_of(self.path.as_str()) {
            Some(n) => n,
            None => String::new(),
        }
    }

    /// The directory holding the file.
    pub fn parent(&self) -> (p: Option<String>)
        ensures
            opt_view(p) == path_parent(self.path@),
    {
        parent_of(self.path.as_str())
    }

    /// A copy of this file record.
    pub fn copy(&self) -> (r: AudioFile)
        ensures
            r == *self,
    {
        AudioFile {
            path: self.path.clone(),
            format: self.format,
            metadata: match &self.metadata {
                Some(m) => Some(m.copy()),
                None => None,
            },
        }
    }
}

/// The groups that the regex `pattern` captures in its leftmost match in
/// `text`, group 0 (the whole match) first, `None` for a group that took no
/// part; `None` without a match.
pub uninterp spec fn regex_captures(pattern: Seq<char>, text: Seq<char>) -> Option<Seq<Option<Seq<char>>>>;

/// Compiles `pattern` with `regex::Regex::new` and returns the groups of the
/// leftmost match in `text` (`Regex::captures`, each group by `get`); an
/// invalid pattern matches nothing. The regex semantics are named, not
/// stated.
#[verifier::external_body]
pub(crate) fn captures_of(pattern: &str, text: &str) -> (r: Option<Vec<Option<String>>>)
    ensures
        match r {
            Some(v) => regex_captures(pattern@, text@) == Some(
                v@.map_values(|g: Option<String>| opt_view(g)),
            ),
            None => regex_captures(pattern@, text@) is None,
        },
{
    let re = regex::Regex::new(pattern).ok()?;
    let caps = re.captures(text)?;
    Some(caps.iter().map(|g| g.map(|m| m.as_str().to_string())).collect())
}

/// The text that the regex `pattern` captures as its first group in the
/// leftmost match in `text` (`None` without a match or a group).
pub open spec fn regex_capture(pattern: Seq<char>, text: Seq<char>) -> Option<Seq<char>> {
    match regex_captures(pattern, text) {
        Some(gs) => if gs.len() > 1 {
            gs[1]
        } else {
            None
        },
        None => None,
    }
}

/// The first group that `pattern` captures in `text`; see `regex_capture`.
pub(crate) fn capture_group_1(pattern: &str, text: &str) -> (r: Option<String>)
    ensures
        opt_view(r) == regex_capture(pattern@, text@),
{
    match captures_of(pattern, text) {
        Some(v) => {
            if v.len() > 1 {
                match &v[1] {
                    Some(g) => Some(g.clone()),
                    None => None,
                }
            } else {
                None
            }
        },
        None => None,
    }
}

/// The patterns that recognise a disc directory, tried in order.
pub open spec fn disc_patterns() -> Seq<Seq<char>> {
    seq![
        "(?i)^CD\\s*(\\d+)"@,
        "(?i)^DISC\\s*(\\d+)"@,
        "(?i)^DISK\\s*(\\d+)"@,
        "(?i)^PART\\s*(\\d+)"@,
        "(?i)^DISC[_-]?(\\d+)"@,
        "(?i)^CD[_-]?(\\d+)"@,
    ]
}

/// The disc number that pattern `p` reads from `name`, when it captures a
/// number that fits a `u32`.
pub open spec fn disc_by(p: Seq<char>, name: Seq<char>) -> Option<u32> {
    match regex_capture(p, name) {
        Some(t) => match parse_unsigned(t) {
            Some(n) => if n <= u32::MAX {
                Some(n as u32)
            } else {
                None
            },
            None => None,
        },
        None => None,
    }
}

/// The disc number of `name` from the first of `ps` that yields one.
pub open spec fn disc_from(ps: Seq<Seq<char>>, name: Seq<char>) -> Option<u32>
    decreases ps.len(),
{
    if ps.len() == 0 {
        None
    } else {
        match disc_by(ps[0], name) {
            Some(n) => Some(n),
            None => disc_from(ps.drop_first(), name),
        }
    }
}

/// The disc number of a directory name such as `CD1`, `Disc 2` or `Part_3`.
pub open spec fn disc_number_of(name: Seq<char>) -> Option<u32> {
    disc_from(disc_patterns(), name)
}

/// The disc number of a directory name, from the first disc pattern that
/// captures a number.
pub fn detect_disc_number(name: &str) -> (r: Option<u32>)
    ensures
        r == disc_number_of(name@),
{
    let patterns = vec![
        "(?i)^CD\\s*(\\d+)",
        "(?i)^DISC\\s*(\\d+)",
        "(?i)^DISK\\s*(\\d+)",
        "(?i)^PART\\s*(\\d+)",
        "(?i)^DISC[_-]?(\\d+)",
        "(?i)^CD[_-]?(\\d+)",
    ];
    let ghost pv = patterns@.map_values(|p: &str| p@);
    assert(pv =~= disc_patterns());
    let mut i: usize = 0;
    assert(pv.skip(0) =~= pv);
    while i < patterns.len()
        invariant
            i <= patterns@.len(),
            pv == patterns@.map_values(|p: &str| p@),
            pv.len() == patterns@.len(),
            pv == disc_patterns(),
            disc_from(pv, name@) == disc_from(pv.skip(i as int), name@),
        decreases patterns.len() - i,
    {
        assert(pv.skip(i as int)[0] == patterns@[i as int]@);
        match capture_group_1(patterns[i], name) {
            Some(t) => {
                let digits = chars_of(t.as_str());
                match parse_u32(digits.as_slice()) {
                    Some(n) => {
                        return Some(n);
                    },
                    None => {},
                }
            },
            None => {},
        }
        assert(pv.skip(i as int).drop_first() =~= pv.skip(i + 1));
        i = i + 1;
    }
    assert(pv.skip(i as int) =~= Seq::<Seq<char>>::empty());
    None
}

/// `fs` stably sorted by natural order of file names.
pub open spec fn natural_files(fs: Seq<AudioFile>) -> Seq<AudioFile> {
    sort_entries(with_no_disc(fs), false).map_values(|e: (Option<u32>, AudioFile)| e.1)
}

/// A group of audio files (e.g. from one directory or disc).
#[derive(Debug, Clone)]
pub struct AudioGroup {
    pub name: String,
    pub files: Vec<AudioFile>,
    pub disc_number: Option<u32>,
}

/// The total duration of the files of `fs` that have metadata.
pub open spec fn files_duration(fs: Seq<AudioFile>) -> nat
    decreases fs.len(),
{
    if fs.len() == 0 {
        0
    } else {
        files_duration(fs.drop_last()) + match fs.last().metadata {
            Some(m) => m.duration@,
            None => 0,
        }
    }
}

impl AudioGroup {
    /// A group named `name`, with the disc number that the name shows.
    pub fn new(name: String, files: Vec<AudioFile>) -> (g: AudioGroup)
        ensures
            g.name == name,
            g.files == files,
            g.disc_number == disc_number_of(name@),
    {
        let disc_number = detect_disc_number(name.as_str());
        AudioGroup { name, files, disc_number }
    }

    /// The total duration of the files that have metadata; the sum must be
    /// representable.
    pub fn total_duration(&self) -> (d: Duration)
        requires
            files_duration(self.files@) <= max_nanos(),
        ensures
            d@ == files_duration(self.files@),
    {
        let mut total = Duration::zero();
        let mut i: usize = 0;
        assert(self.files@.take(0) =~= Seq::<AudioFile>::empty());
        while i < self.files.len()
            invariant
                i <= self.files@.len(),
                total@ == files_duration(self.files@.take(i as int)),
                files_duration(self.files@) <= max_nanos(),
            decreases self.files.len() - i,
        {
            assert(self.files@.take(i + 1).drop_last() =~= self.files@.take(i as int));
            proof {
                lemma_files_duration_prefix(self.files@, i + 1);
            }
            match &self.files[i].metadata {
                Some(m) => {
                    total = total.add(m.duration);
                },
                None => {},
            }
            i = i + 1;
        }
        assert(self.files@.take(self.files.len() as int) =~= self.files@);
        total
    }

    /// Sorts the files naturally by file name.
    pub fn sort_naturally(&mut self)
        ensures
            final(self).name == old(self).name,
            final(self).disc_number == old(self).disc_number,
            final(self).files@ == natural_files(old(self).files@),
    {
        let mut files: Vec<AudioFile> = Vec::new();
        std::mem::swap(&mut files, &mut self.files);
        let sorted = sort_files(files, false);
        self.files = sorted;
    }
}

/// Durations of prefixes never exceed the whole.
proof fn lemma_files_duration_prefix(fs: Seq<AudioFile>, i: int)
    requires
        0 <= i <= fs.len(),
    ensures
        files_duration(fs.take(i)) <= files_duration(fs),
    decreases fs.len() - i,
{
    if i < fs.len() {
        lemma_files_duration_prefix(fs, i + 1);
        assert(fs.take(i + 1).drop_last() =~= fs.take(i));
    } else {
        assert(fs.take(i) =~= fs);
    }
}

/// The result of a natural-order comparison.
#[derive(Debug, Clone, Copy, PartialEq, Eq, Structural)]
pub enum NatOrder {
    Less,
    Equal,
    Greater,
}

/// The natural order of two texts, as `natord::compare` decides it (digit
/// runs compared by value, whitespace skipped).
pub uninterp spec fn natural_order(a: Seq<char>, b: Seq<char>) -> NatOrder;

/// Calls `natord::compare` and reports its three outcomes. Its ordering
/// rules are named, not stated.
#[verifier::external_body]
pub(crate) fn natural_order_of(a: &str, b: &str) -> (r: NatOrder)
    ensures
        r == natural_order(a@, b@),
{
    match natord::compare(a, b) {
        std::cmp::Ordering::Less => NatOrder::Less,
        std::cmp::Ordering::Equal => NatOrder::Equal,
        std::cmp::Ordering::Greater => NatOrder::Greater,
    }
}

/// Disc numbers ordered ascending, with unnumbered entries last.
pub open spec fn disc_order(a: Option<u32>, b: Option<u32>) -> NatOrder {
    match (a, b) {
        (Some(x), Some(y)) => if x < y {
            NatOrder::Less
        } else if x == y {
            NatOrder::Equal
        } else {
            NatOrder::Greater
        },
        (Some(_), None) => NatOrder::Less,
        (None, Some(_)) => NatOrder::Greater,
        (None, None) => NatOrder::Equal,
    }
}

/// The text a file is ordered by: its full path or its file name.
pub open spec fn order_key(f: AudioFile, by_path: bool) -> Seq<char> {
    if by_path {
        f.path@
    } else {
        file_name_text(f.path@)
    }
}

/// Whether entry `a` sorts after entry `b`: by disc number, then naturally
/// by the ordering text.
pub open spec fn entry_after(a: (Option<u32>, AudioFile), b: (Option<u32>, AudioFile), by_path: bool) -> bool {
    match disc_order(a.0, b.0) {
        NatOrder::Greater => true,
        NatOrder::Less => false,
        NatOrder::Equal => natural_order(order_key(a.1, by_path), order_key(b.1, by_path))
            == NatOrder::Greater,
    }
}

/// One step of a stable insertion sort of entries.
pub open spec fn insert_entry(s: Seq<(Option<u32>, AudioFile)>, x: (Option<u32>, AudioFile), by_path: bool) -> Seq<
    (Option<u32>, AudioFile),
>
    decreases s.len(),
{
    if s.len() == 0 {
        seq![x]
    } else if !entry_after(s.last(), x, by_path) {
        s.push(x)
    } else {
        insert_entry(s.drop_last(), x, by_path).push(s.last())
    }
}

/// Entries stably sorted by disc number, then naturally by name or path.
pub open spec fn sort_entries(s: Seq<(Option<u32>, AudioFile)>, by_path: bool) -> Seq<
    (Option<u32>, AudioFile),
>
    decreases s.len(),
{
    if s.len() == 0 {
        seq![]
    } else {
        insert_entry(sort_entries(s.drop_last(), by_path), s.last(), by_path)
    }
}

/// Files as entries without a disc number.
pub open spec fn with_no_disc(fs: Seq<AudioFile>) -> Seq<(Option<u32>, AudioFile)> {
    fs.map_values(|f: AudioFile| (None::<u32>, f))
}

/// Inserting at the position found by scanning from the end is
/// `insert_entry`.
proof fn lemma_insert_entry_position(s: Seq<(Option<u32>, AudioFile)>, x: (Option<u32>, AudioFile), by_path: bool, j: int)
    requires
        0 <= j <= s.len(),
        forall|k: int| j <= k < s.len() ==> entry_after(#[trigger] s[k], x, by_path),
        j == 0 || !entry_after(s[j - 1], x, by_path),
    ensures
        insert_entry(s, x, by_path) == s.insert(j, x),
    decreases s.len(),
{
    if s.len() == 0 {
        assert(s.insert(j, x) =~= seq![x]);
    } else if j == s.len() {
        assert(s.insert(j, x) =~= s.push(x));
    } else {
        lemma_insert_entry_position(s.drop_last(), x, by_path, j);
        assert(s.drop_last().insert(j, x).push(s.last()) =~= s.insert(j, x));
    }
}

/// Whether `a` sorts after `b`.
fn entry_after_exec(a: &(Option<u32>, AudioFile), b: &(Option<u32>, AudioFile), by_path: bool) -> (r: bool)
    ensures
        r == entry_after(*a, *b, by_path),
{
    let d = match (a.0, b.0) {
        (Some(x), Some(y)) => if x < y {
            NatOrder::Less
        } else if x == y {
            NatOrder::Equal
        } else {
            NatOrder::Greater
        },
        (Some(_), None) => NatOrder::Less,
        (None, Some(_)) => NatOrder::Greater,
        (None, None) => NatOrder::Equal,
    };
    match d {
        NatOrder::Greater => true,
        NatOrder::Less => false,
        NatOrder::Equal => {
            let o = if by_path {
                natural_order_of(a.1.path.as_str(), b.1.path.as_str())
            } else {
                let an = a.1.filename();
                let bn = b.1.filename();
                natural_order_of(an.as_str(), bn.as_str())
            };
            o == NatOrder::Greater
        },
    }
}

/// Entries stably sorted by disc number, then naturally by file name or by
/// full path.
pub fn sort_entries_exec(v: Vec<(Option<u32>, AudioFile)>, by_path: bool) -> (r: Vec<
    (Option<u32>, AudioFile),
>)
    ensures
        r@ == sort_entries(v@, by_path),
{
    let mut input = v;
    let ghost orig = input@;
    let mut out: Vec<(Option<u32>, AudioFile)> = Vec::new();
    let mut i: usize = 0;
    assert(orig.take(0) =~= Seq::<(Option<u32>, AudioFile)>::empty());
    assert(orig.skip(0) =~= orig);
    assert(orig.len() == input.len());
    while input.len() > 0
        invariant
            i + input@.len() == orig.len(),
            orig.len() <= usize::MAX,
            input@ == orig.skip(i as int),
            out@ == sort_entries(orig.take(i as int), by_path),
        decreases input.len(),
    {
        let x = input.remove(0);
        assert(x == orig[i as int]);
        let ghost sv = out@;
        let mut j: usize = out.len();
        while j > 0 && entry_after_exec(&out[j - 1], &x, by_path)
            invariant
                j <= out@.len(),
                sv == out@,
                forall|k: int| j <= k < out@.len() ==> entry_after(#[trigger] sv[k], x, by_path),
            decreases j,
        {
            j = j - 1;
        }
        proof {
            lemma_insert_entry_position(sv, x, by_path, j as int);
        }
        out.insert(j, x);
        assert(orig.take(i + 1).drop_last() =~= orig.take(i as int));
        assert(input@ =~= orig.skip(i + 1));
        i = i + 1;
    }
    assert(orig.take(i as int) =~= orig);
    out
}

/// Files stably sorted naturally by file name, or by full path.
pub fn sort_files(files: Vec<AudioFile>, by_path: bool) -> (r: Vec<AudioFile>)
    ensures
        r@ == sort_entries(with_no_disc(files@), by_path).map_values(
            |e: (Option<u32>, AudioFile)| e.1,
        ),
{
    let mut entries: Vec<(Option<u32>, AudioFile)> = Vec::new();
    let mut rest = files;
    let ghost orig = rest@;
    let mut i: usize = 0;
    assert(orig.skip(0) =~= orig);
    assert(orig.len() == rest.len());
    while rest.len() > 0
        invariant
            i + rest@.len() == orig.len(),
            orig.len() <= usize::MAX,
            rest@ == orig.skip(i as int),
            entries@ =~= with_no_disc(orig).take(i as int),
        decreases rest.len(),
    {
        let f = rest.remove(0);
        entries.push((None, f));
        assert(rest@ =~= orig.skip(i + 1));
        i = i + 1;
    }
    assert(entries@ =~= with_no_disc(orig));
    let sorted = sort_entries_exec(entries, by_path);
    let mut out: Vec<AudioFile> = Vec::new();
    let mut src = sorted;
    let ghost sv = src@;
    let mut k: usize = 0;
    assert(sv.skip(0) =~= sv);
    assert(sv.len() == src.len());
    while src.len() > 0
        invariant
            k + src@.len() == sv.len(),
            sv.len() <= usize::MAX,
            src@ == sv.skip(k as int),
            out@ =~= sv.map_values(|e: (Option<u32>, AudioFile)| e.1).take(k as int),
        decreases src.len(),
    {
        let e = src.remove(0);
        out.push(e.1);
        assert(src@ =~= sv.skip(k + 1));
        k = k + 1;
    }
    out
}

/// Files sorted by disc number (unnumbered last), then naturally by file
/// name.
pub fn order_disc_entries(entries: Vec<(Option<u32>, AudioFile)>) -> (r: Vec<AudioFile>)
    ensures
        r@ == sort_entries(entries@, false).map_values(|e: (Option<u32>, AudioFile)| e.1),
{
    let sorted = sort_entries_exec(entries, false);
    let mut out: Vec<AudioFile> = Vec::new();
    let mut src = sorted;
    let ghost sv = src@;
    let mut k: usize = 0;
    assert(sv.skip(0) =~= sv);
    assert(sv.len() == src.len());
    while src.len() > 0
        invariant
            k + src@.len() == sv.len(),
            sv.len() <= usize::MAX,
            src@ == sv.skip(k as int),
            out@ =~= sv.map_values(|e: (Option<u32>, AudioFile)| e.1).take(k as int),
        decreases src.len(),
    {
        let e = src.remove(0);
        out.push(e.1);
        assert(src@ =~= sv.skip(k + 1));
        k = k + 1;
    }
    out
}

/// Inserting adds exactly the inserted entry.
proof fn lemma_insert_entry_contents(s: Seq<(Option<u32>, AudioFile)>, x: (Option<u32>, AudioFile), by_path: bool)
    ensures
        insert_entry(s, x, by_path).to_multiset() == s.to_multiset().insert(x),
    decreases s.len(),
{
    broadcast use vstd::seq_lib::group_seq_properties, vstd::multiset::group_multiset_axioms;

    if s.len() == 0 {
        assert(seq![x] =~= Seq::<(Option<u32>, AudioFile)>::empty().push(x));
    } else if !entry_after(s.last(), x, by_path) {
    } else {
        let t = s.drop_last();
        lemma_insert_entry_contents(t, x, by_path);
        assert(s =~= t.push(s.last()));
        assert(insert_entry(s, x, by_path).to_multiset() =~= s.to_multiset().insert(x));
    }
}

/// Law: sorting entries keeps exactly the entries it was given.
pub proof fn lemma_sort_entries_permutes(s: Seq<(Option<u32>, AudioFile)>, by_path: bool)
    ensures
        sort_entries(s, by_path).to_multiset() == s.to_multiset(),
    decreases s.len(),
{
    broadcast use vstd::seq_lib::group_seq_properties, vstd::multiset::group_multiset_axioms;

    if s.len() > 0 {
        let t = s.drop_last();
        lemma_sort_entries_permutes(t, by_path);
        lemma_insert_entry_contents(sort_entries(t, by_path), s.last(), by_path);
        assert(s =~= t.push(s.last()));
    }
}

/// The directories holding `fs`, in order of first appearance; files
/// without a directory are left out.
pub open spec fn parent_dirs(fs: Seq<AudioFile>) -> Seq<Seq<char>>
    decreases fs.len(),
{
    if fs.len() == 0 {
        seq![]
    } else {
        let d = parent_dirs(fs.drop_last());
        match path_parent(fs.last().path@) {
            Some(p) => if d.contains(p) {
                d
            } else {
                d.push(p)
            },
            None => d,
        }
    }
}

/// The files of `fs` whose directory is `dir`, in order.
pub open spec fn files_in_dir(fs: Seq<AudioFile>, dir: Seq<char>) -> Seq<AudioFile>
    decreases fs.len(),
{
    if fs.len() == 0 {
        seq![]
    } else {
        let r = files_in_dir(fs.drop_last(), dir);
        if path_parent(fs.last().path@) == Some(dir) {
            r.push(fs.last())
        } else {
            r
        }
    }
}

/// The name of the group for directory `dir`: its last component, or
/// `Unknown`.
pub open spec fn group_name_of(dir: Seq<char>) -> Seq<char> {
    match path_file_name(dir) {
        Some(n) => n,
        None => "Unknown"@,
    }
}

/// The files of `fs` whose directory is `dir`.
fn collect_dir_files(fs: &Vec<AudioFile>, parents: &Vec<Option<String>>, dir: &String) -> (r: Vec<
    AudioFile,
>)
    requires
        parents@.len() == fs@.len(),
        forall|k: int| 0 <= k < fs@.len() ==> opt_view(#[trigger] parents@[k]) == path_parent(fs@[k].path@),
    ensures
        r@ == files_in_dir(fs@, dir@),
{
    let mut r: Vec<AudioFile> = Vec::new();
    let mut i: usize = 0;
    assert(fs@.take(0) =~= Seq::<AudioFile>::empty());
    while i < fs.len()
        invariant
            i <= fs@.len(),
            parents@.len() == fs@.len(),
            forall|k: int| 0 <= k < fs@.len() ==> opt_view(#[trigger] parents@[k]) == path_parent(fs@[k].path@),
            r@ == files_in_dir(fs@.take(i as int), dir@),
        decreases fs.len() - i,
    {
        assert(fs@.take(i + 1).drop_last() =~= fs@.take(i as int));
        assert(opt_view(parents@[i as int]) == path_parent(fs@[i as int].path@));
        match &parents[i] {
            Some(p) => {
                if *p == *dir {
                    r.push(fs[i].copy());
                }
            },
            None => {},
        }
        i = i + 1;
    }
    assert(fs@.take(fs.len() as int) =~= fs@);
    r
}

/// Whether `d` is among `dirs`.
fn contains_dir(dirs: &Vec<String>, d: &String) -> (b: bool)
    ensures
        b == crate::text::string_views(dirs@).contains(d@),
{
    let mut i: usize = 0;
    while i < dirs.len()
        invariant
            i <= dirs@.len(),
            forall|k: int| 0 <= k < i ==> #[trigger] dirs@[k]@ != d@,
        decreases dirs.len() - i,
    {
        if dirs[i] == *d {
            assert(crate::text::string_views(dirs@)[i as int] == d@);
            return true;
        }
        i = i + 1;
    }
    proof {
        if crate::text::string_views(dirs@).contains(d@) {
            let k = choose|k: int| 0 <= k < dirs@.len() && crate::text::string_views(dirs@)[k] == d@;
            assert(dirs@[k]@ == d@);
        }
    }
    false
}

/// Groups files by directory, in order of each directory's first file; each
/// group keeps its files in order, is named after its directory, and carries
/// the disc number that name shows. Files without a directory are dropped.
pub fn group_files_by_directory(files: Vec<AudioFile>) -> (r: Vec<AudioGroup>)
    ensures
        r@.len() == parent_dirs(files@).len(),
        forall|k: int|
            0 <= k < r@.len() ==> {
                let dir = parent_dirs(files@)[k];
                &&& (#[trigger] r@[k]).name@ == group_name_of(dir)
                &&& r@[k].files@ == files_in_dir(files@, dir)
                &&& r@[k].disc_number == disc_number_of(r@[k].name@)
            },
{
    let mut parents: Vec<Option<String>> = Vec::new();
    let mut dirs: Vec<String> = Vec::new();
    let mut i: usize = 0;
    assert(files@.take(0) =~= Seq::<AudioFile>::empty());
    while i < files.len()
        invariant
            i <= files@.len(),
            parents@.len() == i,
            forall|k: int| 0 <= k < i ==> opt_view(#[trigger] parents@[k]) == path_parent(files@[k].path@),
            crate::text::string_views(dirs@) == parent_dirs(files@.take(i as int)),
        decreases files.len() - i,
    {
        assert(files@.take(i + 1).drop_last() =~= files@.take(i as int));
        let p = files[i].parent();
        match &p {
            Some(d) => {
                if !contains_dir(&dirs, d) {
                    let ghost before = dirs@;
                    dirs.push(d.clone());
                    assert(crate::text::string_views(dirs@) =~= crate::text::string_views(before).push(d@));
                }
            },
            None => {},
        }
        parents.push(p);
        i = i + 1;
    }
    assert(files@.take(files.len() as int) =~= files@);
    let mut groups: Vec<AudioGroup> = Vec::new();
    let mut k: usize = 0;
    while k < dirs.len()
        invariant
            k <= dirs@.len(),
            parents@.len() == files@.len(),
            forall|j: int| 0 <= j < files@.len() ==> opt_view(#[trigger] parents@[j]) == path_parent(files@[j].path@),
            crate::text::string_views(dirs@) == parent_dirs(files@),
            groups@.len() == k,
            forall|j: int|
                0 <= j < k ==> {
                    let dir = parent_dirs(files@)[j];
                    &&& (#[trigger] groups@[j]).name@ == group_name_of(dir)
                    &&& groups@[j].files@ == files_in_dir(files@, dir)
                    &&& groups@[j].disc_number == disc_number_of(groups@[j].name@)
                },
        decreases dirs.len() - k,
    {
        let dir = &dirs[k];
        assert(crate::text::string_views(dirs@)[k as int] == dir@);
        let members = collect_dir_files(&files, &parents, dir);
        let name = match file_name_of(dir.as_str()) {
            Some(n) => n,
            None => "Unknown".to_owned(),
        };
        groups.push(AudioGroup::new(name, members));
        k = k + 1;
    }
    groups
}

/// Whether group `a` sorts after group `b` by disc number.
pub open spec fn group_after(a: AudioGroup, b: AudioGroup) -> bool {
    disc_order(a.disc_number, b.disc_number) == NatOrder::Greater
}

/// One step of a stable insertion sort of groups by disc number.
pub open spec fn insert_group(s: Seq<AudioGroup>, x: AudioGroup) -> Seq<AudioGroup>
    decreases s.len(),
{
    if s.len() == 0 {
        seq![x]
    } else if !group_after(s.last(), x) {
        s.push(x)
    } else {
        insert_group(s.drop_last(), x).push(s.last())
    }
}

/// Groups stably sorted by disc number, unnumbered groups last.
pub open spec fn sort_groups(s: Seq<AudioGroup>) -> Seq<AudioGroup>
    decreases s.len(),
{
    if s.len() == 0 {
        seq![]
    } else {
        insert_group(sort_groups(s.drop_last()), s.last())
    }
}

/// Inserting at the position found by scanning from the end is
/// `insert_group`.
proof fn lemma_insert_group_position(s: Seq<AudioGroup>, x: AudioGroup, j: int)
    requires
        0 <= j <= s.len(),
        forall|k: int| j <= k < s.len() ==> group_after(#[trigger] s[k], x),
        j == 0 || !group_after(s[j - 1], x),
    ensures
        insert_group(s, x) == s.insert(j, x),
    decreases s.len(),
{
    if s.len() == 0 {
        assert(s.insert(j, x) =~= seq![x]);
    } else if j == s.len() {
        assert(s.insert(j, x) =~= s.push(x));
    } else {
        lemma_insert_group_position(s.drop_last(), x, j);
        assert(s.drop_last().insert(j, x).push(s.last()) =~= s.insert(j, x));
    }
}

/// Whether no group of `s` sorts after a later one.
pub open spec fn groups_in_disc_order(s: Seq<AudioGroup>) -> bool {
    forall|i: int, j: int| 0 <= i < j < s.len() ==> !group_after(#[trigger] s[i], #[trigger] s[j])
}

/// Inserting a group keeps the order, the groups, and every bound above
/// them.
proof fn lemma_insert_group_sorted(s: Seq<AudioGroup>, x: AudioGroup)
    requires
        groups_in_disc_order(s),
    ensures
        groups_in_disc_order(insert_group(s, x)),
        insert_group(s, x).to_multiset() == s.to_multiset().insert(x),
        forall|y: AudioGroup|
            (forall|k: int| 0 <= k < s.len() ==> !group_after(#[trigger] s[k], y)) && !group_after(x, y)
                ==> forall|k: int|
                0 <= k < insert_group(s, x).len() ==> !group_after(#[trigger] insert_group(s, x)[k], y),
    decreases s.len(),
{
    broadcast use vstd::seq_lib::group_seq_properties, vstd::multiset::group_multiset_axioms;

    let r = insert_group(s, x);
    if s.len() == 0 {
        assert(r =~= seq![x]);
    } else if !group_after(s.last(), x) {
        assert(r =~= s.push(x));
        assert forall|i: int, j: int| 0 <= i < j < r.len() implies !group_after(
            #[trigger] r[i],
            #[trigger] r[j],
        ) by {
            if j == s.len() && i < s.len() - 1 {
                assert(!group_after(s[i], s[s.len() - 1]));
            }
        }
    } else {
        let t = s.drop_last();
        let l = s.last();
        assert forall|i: int, j: int| 0 <= i < j < t.len() implies !group_after(
            #[trigger] t[i],
            #[trigger] t[j],
        ) by {
            assert(t[i] == s[i] && t[j] == s[j]);
        }
        lemma_insert_group_sorted(t, x);
        let u = insert_group(t, x);
        assert(r =~= u.push(l));
        assert forall|k: int| 0 <= k < t.len() implies !group_after(#[trigger] t[k], l) by {
            assert(t[k] == s[k]);
            assert(l == s[s.len() - 1]);
        }
        assert(!group_after(x, l));
        assert((forall|k: int| 0 <= k < t.len() ==> !group_after(#[trigger] t[k], l)) && !group_after(x, l)
            ==> forall|k: int| 0 <= k < u.len() ==> !group_after(#[trigger] u[k], l));
        assert(forall|k: int| 0 <= k < u.len() ==> !group_after(#[trigger] u[k], l));
        assert forall|i: int, j: int| 0 <= i < j < r.len() implies !group_after(
            #[trigger] r[i],
            #[trigger] r[j],
        ) by {
            if j == u.len() {
                assert(r[i] == u[i]);
            } else {
                assert(r[i] == u[i] && r[j] == u[j]);
            }
        }
        assert(s =~= t.push(l));
        assert forall|y: AudioGroup|
            (forall|k: int| 0 <= k < s.len() ==> !group_after(#[trigger] s[k], y)) && !group_after(x, y)
                implies forall|k: int|
                0 <= k < r.len() ==> !group_after(#[trigger] r[k], y) by {
            assert forall|k: int| 0 <= k < t.len() implies !group_after(#[trigger] t[k], y) by {
                assert(t[k] == s[k]);
            }
            assert(!group_after(s[s.len() - 1], y));
            assert forall|k: int| 0 <= k < r.len() implies !group_after(#[trigger] r[k], y) by {
                if k < u.len() {
                    assert(r[k] == u[k]);
                }
            }
        }
    }
}

/// Law: sorting groups by disc number keeps exactly the groups it was
/// given, and puts them in ascending disc order with unnumbered groups last.
pub proof fn lemma_sort_groups_ordered(s: Seq<AudioGroup>)
    ensures
        sort_groups(s).to_multiset() == s.to_multiset(),
        groups_in_disc_order(sort_groups(s)),
    decreases s.len(),
{
    broadcast use vstd::seq_lib::group_seq_properties, vstd::multiset::group_multiset_axioms;

    if s.len() > 0 {
        let t = s.drop_last();
        lemma_sort_groups_ordered(t);
        lemma_insert_group_sorted(sort_groups(t), s.last());
        assert(s =~= t.push(s.last()));
    }
}

/// Whether group `a` sorts after group `b` by disc number.
fn group_after_exec(a: &AudioGroup, b: &AudioGroup) -> (r: bool)
    ensures
        r == group_after(*a, *b),
{
    match (a.disc_number, b.disc_number) {
        (Some(x), Some(y)) => x > y,
        (None, Some(_)) => true,
        _ => false,
    }
}

/// Groups stably sorted by disc number, unnumbered groups last.
pub fn sort_groups_by_disc(v: Vec<AudioGroup>) -> (r: Vec<AudioGroup>)
    ensures
        r@ == sort_groups(v@),
{
    let mut input = v;
    let ghost orig = input@;
    let mut out: Vec<AudioGroup> = Vec::new();
    let mut i: usize = 0;
    assert(orig.take(0) =~= Seq::<AudioGroup>::empty());
    assert(orig.skip(0) =~= orig);
    assert(orig.len() == input.len());
    while input.len() > 0
        invariant
            i + input@.len() == orig.len(),
            orig.len() <= usize::MAX,
            input@ == orig.skip(i as int),
            out@ == sort_groups(orig.take(i as int)),
        decreases input.len(),
    {
        let x = input.remove(0);
        assert(x == orig[i as int]);
        let ghost sv = out@;
        let mut j: usize = out.len();
        while j > 0 && group_after_exec(&out[j - 1], &x)
            invariant
                j <= out@.len(),
                sv == out@,
                forall|k: int| j <= k < out@.len() ==> group_after(#[trigger] sv[k], x),
            decreases j,
        {
            j = j - 1;
        }
        proof {
            lemma_insert_group_position(sv, x, j as int);
        }
        out.insert(j, x);
        assert(orig.take(i + 1).drop_last() =~= orig.take(i as int));
        assert(input@ =~= orig.skip(i + 1));
        i = i + 1;
    }
    assert(orig.take(i as int) =~= orig);
    out
}

/// Orders discovered groups for processing: each group's files naturally by
/// file name, then the groups by disc number (unnumbered last, otherwise in
/// the order given).
pub fn arrange_groups(groups: Vec<AudioGroup>) -> (r: Vec<AudioGroup>)
    ensures
        exists|m: Seq<AudioGroup>|
            {
                &&& m.len() == groups@.len()
                &&& forall|k: int|
                    0 <= k < m.len() ==> {
                        &&& (#[trigger] m[k]).name == groups@[k].name
                        &&& m[k].disc_number == groups@[k].disc_number
                        &&& m[k].files@ == natural_files(groups@[k].files@)
                    }
                &&& r@ == sort_groups(m)
            },
{
    let ghost orig = groups@;
    let mut sorted_each: Vec<AudioGroup> = Vec::new();
    let mut rest = groups;
    let mut i: usize = 0;
    assert(orig.skip(0) =~= orig);
    assert(orig.len() == rest.len());
    while rest.len() > 0
        invariant
            i + rest@.len() == orig.len(),
            orig.len() <= usize::MAX,
            rest@ == orig.skip(i as int),
            sorted_each@.len() == i,
            forall|k: int|
                0 <= k < i ==> {
                    &&& (#[trigger] sorted_each@[k]).name == orig[k].name
                    &&& sorted_each@[k].disc_number == orig[k].disc_number
                    &&& sorted_each@[k].files@ == natural_files(orig[k].files@)
                },
        decreases rest.len(),
    {
        let mut g = rest.remove(0);
        assert(g == orig[i as int]);
        g.sort_naturally();
        sorted_each.push(g);
        assert(rest@ =~= orig.skip(i + 1));
        i = i + 1;
    }
    let ghost m = sorted_each@;
    let r = sort_groups_by_disc(sorted_each);
    assert(r@ == sort_groups(m));
    r
}

/// The extension text an unsupported file is reported with: its extension,
/// or `unknown`.
pub open spec fn reported_extension(p: Seq<char>) -> Seq<char> {
    match path_extension(p) {
        Some(e) => e,
        None => "unknown"@,
    }
}

/// Validates a file to be discovered, given what checking it found: it must
/// exist, be a file, have a supported extension, and open for reading
/// (checked in that order).
pub fn validate_checked(path: &str, exists: bool, is_file: bool, open: OpenCheck) -> (r: Result<
    (),
    DiscoveryError,
>)
    ensures
        !exists ==> (r matches Err(DiscoveryError::FileNotFound(p)) && p@ == path@),
        exists && !is_file ==> (r matches Err(DiscoveryError::InvalidPath(p)) && p@ == path@),
        exists && is_file && format_of_path(path@) is None ==> (r matches Err(
            DiscoveryError::UnsupportedExtension(e),
        ) && e@ == reported_extension(path@)),
        exists && is_file && format_of_path(path@) is Some ==> match open {
            OpenCheck::Opened => r is Ok,
            OpenCheck::PermissionDenied => r matches Err(DiscoveryError::PermissionDenied(p)) && p@
                == path@,
            OpenCheck::Failed(_) => r matches Err(DiscoveryError::IoError(_)),
        },
{
    if !exists {
        return Err(DiscoveryError::FileNotFound(path.to_owned()));
    }
    if !is_file {
        return Err(DiscoveryError::InvalidPath(path.to_owned()));
    }
    if AudioFormat::from_path(path).is_none() {
        let ext = match extension_of(path) {
            Some(e) => e,
            None => "unknown".to_owned(),
        };
        return Err(DiscoveryError::UnsupportedExtension(ext));
    }
    match open {
        OpenCheck::Opened => Ok(()),
        OpenCheck::PermissionDenied => Err(DiscoveryError::PermissionDenied(path.to_owned())),
        OpenCheck::Failed(e) => Err(DiscoveryError::IoError(e)),
    }
}

/// Whether any of the directory names shows a disc number.
pub fn any_disc_name(names: &[String]) -> (b: bool)
    ensures
        b == exists|k: int| 0 <= k < names@.len() && (#[trigger] disc_number_of(names@[k]@)) is Some,
{
    let mut i: usize = 0;
    while i < names.len()
        invariant
            i <= names@.len(),
            forall|k: int| 0 <= k < i ==> (#[trigger] disc_number_of(names@[k]@)) is None,
        decreases names.len() - i,
    {
        if detect_disc_number(names[i].as_str()).is_some() {
            return true;
        }
        i = i + 1;
    }
    false
}

/// The paths of `ps` whose extension is a supported audio format, in order.
pub open spec fn audio_paths_of(ps: Seq<Seq<char>>) -> Seq<Seq<char>>
    decreases ps.len(),
{
    if ps.len() == 0 {
        seq![]
    } else {
        let r = audio_paths_of(ps.drop_last());
        if format_of_path(ps.last()) is Some {
            r.push(ps.last())
        } else {
            r
        }
    }
}

/// The paths with a supported audio extension, in order.
pub fn filter_audio_paths(paths: Vec<String>) -> (r: Vec<String>)
    ensures
        crate::text::string_views(r@) == audio_paths_of(crate::text::string_views(paths@)),
{
    let ghost pv = crate::text::string_views(paths@);
    let mut r: Vec<String> = Vec::new();
    let mut i: usize = 0;
    assert(pv.take(0) =~= Seq::<Seq<char>>::empty());
    while i < paths.len()
        invariant
            i <= paths@.len(),
            pv == crate::text::string_views(paths@),
            crate::text::string_views(r@) == audio_paths_of(pv.take(i as int)),
        decreases paths.len() - i,
    {
        assert(pv.take(i + 1).drop_last() =~= pv.take(i as int));
        assert(pv.take(i + 1).last() == paths@[i as int]@);
        if AudioFormat::from_path(paths[i].as_str()).is_some() {
            let ghost before = r@;
            r.push(paths[i].clone());
            assert(crate::text::string_views(r@) =~= crate::text::string_views(before).push(
                paths@[i as int]@,
            ));
        }
        i = i + 1;
    }
    assert(pv.take(paths.len() as int) =~= pv);
    r
}

/// The files discovered in a directory, or `NoAudioFiles` for the
/// directory when there are none.
pub fn nonempty_discovery(files: Vec<AudioFile>, dir: &str) -> (r: Result<Vec<AudioFile>, DiscoveryError>)
    ensures
        files@.len() == 0 ==> (r matches Err(DiscoveryError::NoAudioFiles(p)) && p@ == dir@),
        files@.len() > 0 ==> (r matches Ok(v) && v@ == files@),
{
    if files.len() == 0 {
        Err(DiscoveryError::NoAudioFiles(dir.to_owned()))
    } else {
        Ok(files)
    }
}

} // verus!
