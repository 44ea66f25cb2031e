//! The order of work in processing a batch and each of its groups, as state
//! machines: each step takes the outcome of the last piece of outside work
//! (a download, a merge, a file move) and says what progress to report and
//! what to do next.

use vstd::prelude::*;

use crate::config::Config;
use crate::discovery::{regex_capture, AudioFile, AudioGroup, DiscoveryError};
use crate::merge::{new_job, MergeError, MergeJob, MergeJobView};
use crate::metadata::{opt_view, BookMetadata, BookMetadataView, ChapterView};
use crate::paths::{path_with_extension, with_extension};
use crate::processor::{
    chapters_from_file, determine_output_path, fallback_path, file_chapter_views, formatted_path,
    lookup_id, output_path_of, batch_outcome, batch_outcome_is, ProcessingProgress, ProcessingResult, ProcessingStage,
    ProcessorError, METADATA_ID_PATTERN,
};
use crate::text::{chars_of, dec, dec_exec, extend_chars, extend_str, string_of, string_views};

verus! {

/// A progress report as plain values.
pub struct ProgressView {
    pub stage: ProcessingStage,
    pub current_file: Option<Seq<char>>,
    pub total_files: nat,
    pub completed_files: nat,
    pub message: Seq<char>,
}

impl View for ProcessingProgress {
    type V = ProgressView;

    open spec fn view(&self) -> ProgressView {
        ProgressView {
            stage: self.stage,
            current_file: crate::metadata::opt_view(self.current_file),
            total_files: self.total_files as nat,
            completed_files: self.completed_files as nat,
            message: self.message@,
        }
    }
}

/// The views of a sequence of progress reports.
pub open spec fn progress_views(v: Seq<ProcessingProgress>) -> Seq<ProgressView> {
    v.map_values(|p: ProcessingProgress| p@)
}

/// A progress report about one file.
pub open spec fn file_progress(
    stage: ProcessingStage,
    file: Seq<char>,
    total: nat,
    done: nat,
    message: Seq<char>,
) -> ProgressView {
    ProgressView {
        stage,
        current_file: Some(file),
        total_files: total,
        completed_files: done,
        message,
    }
}

/// The paths of `fs`.
pub open spec fn paths_of(fs: Seq<AudioFile>) -> Seq<Seq<char>> {
    fs.map_values(|f: AudioFile| f.path@)
}

/// The view of optional metadata.
pub open spec fn meta_view(m: Option<BookMetadata>) -> Option<BookMetadataView> {
    match m {
        Some(x) => Some(x@),
        None => None,
    }
}

/// Whether `r` records processing `files` into `output`.
pub open spec fn result_is(
    r: ProcessingResult,
    files: Seq<AudioFile>,
    output: Seq<char>,
    metadata_applied: bool,
    files_moved: bool,
) -> bool {
    &&& string_views(r.input_files@) == paths_of(files)
    &&& r.output_file@ == output
    &&& r.metadata_applied == metadata_applied
    &&& r.files_moved == files_moved
}

/// The stages of processing one group.
#[derive(Debug, Clone, Copy, PartialEq, Eq, Structural)]
pub enum GroupPhase {
    Start,
    Fetching,
    ReadingChapters,
    Merging,
    WritingTags,
    EmbeddingCover,
    EmbeddingChapters,
    WritingChaptersTxt,
    Moving,
    Done,
}

/// What processing one group has gathered so far.
pub struct GroupState {
    /// The stage it waits in.
    pub phase: GroupPhase,
    /// The metadata found for the book, if any.
    pub metadata: Option<BookMetadata>,
    /// The merged file, once there is one.
    pub merged: String,
    /// Whether the metadata tags were written.
    pub metadata_applied: bool,
}

/// The outcome of the last piece of work on a group.
pub enum GroupEvent {
    /// Processing starts.
    Begin,
    /// The metadata lookup ended: the book's metadata, or `None` where the
    /// lookup failed.
    MetadataFetched(Option<BookMetadata>),
    /// The chapters read from the first input file (none where reading
    /// failed).
    ChaptersRead(Vec<crate::chapters::Chapter>),
    /// The merge ended, with the merged file or the error.
    Merged(Result<String, MergeError>),
    /// Writing the tags ended; whether it succeeded.
    TagsWritten(bool),
    /// Embedding the cover, embedding the chapters or writing the chapter
    /// list ended; processing goes on whatever its outcome.
    StepDone,
    /// Moving the source files ended; whether it succeeded.
    FilesMoved(bool),
}

/// The next piece of work on a group.
pub enum GroupAction {
    /// Look the book up by this id.
    FetchMetadata(String),
    /// Read the chapters of this input file.
    ReadChapters(String),
    /// Run this merge.
    Merge(MergeJob),
    /// Write the tags of the state's metadata to this file.
    WriteTags(String),
    /// Download the cover at the URL (second) into the file (first).
    EmbedCover(String, String),
    /// Embed the chapters of the state's metadata into this file.
    EmbedChapters(String),
    /// Write the chapter list of the state's metadata to this path.
    WriteChaptersTxt(String),
    /// Move these source files into the directory.
    MoveFiles(Vec<String>, String),
    /// Processing the group is over, with this outcome.
    Finish(Result<ProcessingResult, ProcessorError>),
}

/// What to report, then what to do.
pub struct GroupStep {
    pub reports: Vec<ProcessingProgress>,
    pub action: GroupAction,
}

/// Whether `event` is the outcome that a group in `phase` waits for.
pub open spec fn group_accepts(phase: GroupPhase, event: GroupEvent) -> bool {
    match event {
        GroupEvent::Begin => phase == GroupPhase::Start,
        GroupEvent::MetadataFetched(_) => phase == GroupPhase::Fetching,
        GroupEvent::ChaptersRead(_) => phase == GroupPhase::ReadingChapters,
        GroupEvent::Merged(_) => phase == GroupPhase::Merging,
        GroupEvent::TagsWritten(_) => phase == GroupPhase::WritingTags,
        GroupEvent::StepDone => phase == GroupPhase::EmbeddingCover || phase
            == GroupPhase::EmbeddingChapters || phase == GroupPhase::WritingChaptersTxt,
        GroupEvent::FilesMoved(_) => phase == GroupPhase::Moving,
    }
}

impl GroupState {
    /// The metadata is there in every stage that works with it.
    pub open spec fn wf(&self) -> bool {
        (self.phase == GroupPhase::ReadingChapters || self.phase == GroupPhase::WritingTags
            || self.phase == GroupPhase::EmbeddingCover || self.phase
            == GroupPhase::EmbeddingChapters || self.phase == GroupPhase::WritingChaptersTxt)
            ==> self.metadata is Some
    }

    /// A group about to be processed.
    pub fn new() -> (s: GroupState)
        ensures
            s.phase == GroupPhase::Start,
            s.metadata is None,
            s.merged@.len() == 0,
            !s.metadata_applied,
            s.wf(),
    {
        GroupState {
            phase: GroupPhase::Start,
            metadata: None,
            merged: String::new(),
            metadata_applied: false,
        }
    }

    /// Whether `event` is the outcome this group waits for.
    pub fn accepts(&self, event: &GroupEvent) -> (b: bool)
        ensures
            b == group_accepts(self.phase, *event),
    {
        match event {
            GroupEvent::Begin => self.phase == GroupPhase::Start,
            GroupEvent::MetadataFetched(_) => self.phase == GroupPhase::Fetching,
            GroupEvent::ChaptersRead(_) => self.phase == GroupPhase::ReadingChapters,
            GroupEvent::Merged(_) => self.phase == GroupPhase::Merging,
            GroupEvent::TagsWritten(_) => self.phase == GroupPhase::WritingTags,
            GroupEvent::StepDone => self.phase == GroupPhase::EmbeddingCover || self.phase
                == GroupPhase::EmbeddingChapters || self.phase == GroupPhase::WritingChaptersTxt,
            GroupEvent::FilesMoved(_) => self.phase == GroupPhase::Moving,
        }
    }
}

/// The id a group is looked up by: none in a dry run or without a metadata
/// source, else the configured id, else the one the group's name carries.
pub open spec fn lookup_target(config: Config, has_source: bool, name: Seq<char>) -> Option<Seq<char>> {
    if config.dry_run || !has_source {
        None
    } else {
        match config.metadata_id {
            Some(c) => Some(c@),
            None => regex_capture(METADATA_ID_PATTERN@, name),
        }
    }
}

/// The id a group named `name` is looked up by; see `lookup_target`.
pub fn lookup_target_of(config: &Config, has_source: bool, name: &str) -> (r: Option<String>)
    ensures
        opt_view(r) == lookup_target(*config, has_source, name@),
{
    if config.dry_run || !has_source {
        None
    } else {
        let configured: Option<&str> = match &config.metadata_id {
            Some(c) => Some(c.as_str()),
            None => None,
        };
        lookup_id(configured, name)
    }
}

/// The report before a lookup.
pub open spec fn lookup_progress(file: Seq<char>, id: Seq<char>) -> ProgressView {
    file_progress(ProcessingStage::ApiLookup, file, 1, 0, "Fetching metadata for ID: "@ + id + "..."@)
}

/// The report before a merge.
pub open spec fn merge_progress(file: Seq<char>) -> ProgressView {
    file_progress(ProcessingStage::Merging, file, 1, 0, "Merging audio files..."@)
}

/// The report once a merge succeeded.
pub open spec fn tagging_progress(merged: Seq<char>) -> ProgressView {
    file_progress(ProcessingStage::Tagging, merged, 1, 0, "Writing metadata and cover art..."@)
}

/// The report before the source files are moved.
pub open spec fn moving_progress(file: Seq<char>, count: nat) -> ProgressView {
    file_progress(
        ProcessingStage::MovingFiles,
        file,
        count,
        0,
        "Moving source files to completed directory..."@,
    )
}

/// The path a book's file is written to, given the metadata found.
pub open spec fn planned_output(output_dir: Seq<char>, config: Config, files: Seq<AudioFile>, m: Option<BookMetadataView>) -> Seq<char> {
    output_path_of(
        output_dir,
        match m {
            Some(mv) => formatted_path(config.path_format@, mv),
            None => fallback_path(files[0].path@),
        },
    )
}

/// Once the metadata is settled: without an output directory, or without
/// files, the group fails; in a dry run it ends with the planned output and
/// nothing done; otherwise the files are merged into the planned output.
pub open spec fn merge_planned(
    config: Config,
    group: AudioGroup,
    m: Option<BookMetadataView>,
    s: GroupState,
    st: GroupStep,
) -> bool {
    match config.output {
        None => {
            &&& s.phase == GroupPhase::Done
            &&& st.reports@.len() == 0
            &&& st.action matches GroupAction::Finish(Err(ProcessorError::NoOutputDir))
        },
        Some(d) => {
            let p = planned_output(d@, config, group.files@, m);
            if group.files@.len() == 0 {
                &&& s.phase == GroupPhase::Done
                &&& st.reports@.len() == 0
                &&& st.action matches GroupAction::Finish(Err(ProcessorError::NoInputs))
            } else if config.dry_run {
                &&& s.phase == GroupPhase::Done
                &&& st.reports@.len() == 0
                &&& st.action matches GroupAction::Finish(Ok(r))
                &&& result_is(r, group.files@, p, false, false)
            } else {
                &&& s.phase == GroupPhase::Merging
                &&& meta_view(s.metadata) == m
                &&& progress_views(st.reports@) == seq![merge_progress(group.files@[0].path@)]
                &&& st.action matches GroupAction::Merge(job)
                &&& job@ == (MergeJobView {
                    num_threads: Some(config.num_cpus),
                    ..new_job(group.files@, p)
                })
            }
        },
    }
}

/// Once tagging is over (or skipped): the source files are moved where a
/// completed directory is set, else the group ends.
pub open spec fn move_planned(
    config: Config,
    group: AudioGroup,
    merged: Seq<char>,
    applied: bool,
    before: Seq<ProgressView>,
    s: GroupState,
    st: GroupStep,
) -> bool {
    match config.completed_directory {
        Some(d) => {
            &&& s.phase == GroupPhase::Moving
            &&& s.merged@ == merged
            &&& s.metadata_applied == applied
            &&& progress_views(st.reports@) == before.push(
                moving_progress(group.files@[0].path@, group.files@.len()),
            )
            &&& st.action matches GroupAction::MoveFiles(sources, dir)
            &&& string_views(sources@) == paths_of(group.files@)
            &&& dir@ == d@
        },
        None => {
            &&& s.phase == GroupPhase::Done
            &&& progress_views(st.reports@) == before
            &&& st.action matches GroupAction::Finish(Ok(r))
            &&& result_is(r, group.files@, merged, applied, false)
        },
    }
}

/// After the tags and the cover: the chapters are embedded where there are
/// any, else the chapter list is written.
pub open spec fn chapters_planned(meta: BookMetadataView, merged: Seq<char>, s: GroupState, st: GroupStep) -> bool {
    &&& s.merged@ == merged
    &&& st.reports@.len() == 0
    &&& if meta.chapters.len() > 0 {
        &&& s.phase == GroupPhase::EmbeddingChapters
        &&& st.action matches GroupAction::EmbedChapters(p)
        &&& p@ == merged
    } else {
        &&& s.phase == GroupPhase::WritingChaptersTxt
        &&& st.action matches GroupAction::WriteChaptersTxt(p)
        &&& p@ == path_with_extension(merged, "chapters.txt"@)
    }
}

/// The metadata with the chapters read from a file, where any were read.
pub open spec fn with_file_chapters(m: BookMetadataView, cs: Seq<crate::chapters::Chapter>) -> BookMetadataView {
    if cs.len() > 0 {
        BookMetadataView { chapters: file_chapter_views(cs), ..m }
    } else {
        m
    }
}

/// A report of `stage` about `file`, with the given counts and message.
fn report(
    stage: ProcessingStage,
    file: &str,
    total_files: usize,
    completed_files: usize,
    message: Vec<char>,
) -> (p: ProcessingProgress)
    ensures
        p@ == file_progress(stage, file@, total_files as nat, completed_files as nat, message@),
{
    ProcessingProgress {
        stage,
        current_file: Some(file.to_owned()),
        total_files,
        completed_files,
        message: string_of(message.as_slice()),
    }
}

/// The paths of `files`.
fn file_paths(files: &Vec<AudioFile>) -> (r: Vec<String>)
    ensures
        string_views(r@) == paths_of(files@),
{
    let mut r: Vec<String> = Vec::new();
    let mut i: usize = 0;
    while i < files.len()
        invariant
            i <= files@.len(),
            string_views(r@) == paths_of(files@.take(i as int)),
        decreases files.len() - i,
    {
        let ghost before = r@;
        r.push(files[i].path.clone());
        assert(string_views(r@) =~= string_views(before).push(files@[i as int].path@));
        assert(paths_of(files@.take(i + 1)) =~= paths_of(files@.take(i as int)).push(
            files@[i as int].path@,
        ));
        i = i + 1;
    }
    assert(files@.take(files.len() as int) =~= files@);
    r
}

/// A copy of `files`.
fn copy_files(files: &Vec<AudioFile>) -> (r: Vec<AudioFile>)
    ensures
        r@ == files@,
{
    let mut r: Vec<AudioFile> = Vec::new();
    let mut i: usize = 0;
    while i < files.len()
        invariant
            i <= files@.len(),
            r@ == files@.take(i as int),
        decreases files.len() - i,
    {
        r.push(files[i].copy());
        assert(files@.take(i + 1) =~= files@.take(i as int).push(files@[i as int]));
        i = i + 1;
    }
    assert(files@.take(files.len() as int) =~= files@);
    r
}

/// A group that is over.
fn finished(metadata: Option<BookMetadata>, outcome: Result<ProcessingResult, ProcessorError>) -> (r: (
    GroupState,
    GroupStep,
))
    ensures
        r.0.phase == GroupPhase::Done,
        r.0.wf(),
        r.1.reports@.len() == 0,
        r.1.action == GroupAction::Finish(outcome),
{
    (
        GroupState { phase: GroupPhase::Done, metadata, merged: String::new(), metadata_applied: false },
        GroupStep { reports: Vec::new(), action: GroupAction::Finish(outcome) },
    )
}

/// Plans the merge once the metadata is settled; see `merge_planned`.
fn plan_merge(config: &Config, group: &AudioGroup, metadata: Option<BookMetadata>) -> (r: (
    GroupState,
    GroupStep,
))
    ensures
        merge_planned(*config, *group, meta_view(metadata), r.0, r.1),
        r.0.wf(),
{
    let out_dir: Option<&str> = match &config.output {
        Some(d) => Some(d.as_str()),
        None => None,
    };
    let found: Option<&BookMetadata> = match &metadata {
        Some(m) => Some(m),
        None => None,
    };
    let out = determine_output_path(out_dir, config.path_format.as_str(), group.files.as_slice(), found);
    let p = match out {
        Ok(p) => p,
        Err(e) => {
            return finished(metadata, Err(e));
        },
    };
    if config.dry_run {
        let result = ProcessingResult {
            input_files: file_paths(&group.files),
            output_file: p,
            metadata_applied: false,
            files_moved: false,
        };
        return finished(metadata, Ok(result));
    }
    let job = MergeJob::new(copy_files(&group.files), p).with_threads(config.num_cpus);
    let first = report(
        ProcessingStage::Merging,
        group.files[0].path.as_str(),
        1,
        0,
        chars_of("Merging audio files..."),
    );
    let reports = vec![first];
    assert(progress_views(reports@) =~= seq![merge_progress(group.files@[0].path@)]);
    (
        GroupState { phase: GroupPhase::Merging, metadata, merged: String::new(), metadata_applied: false },
        GroupStep { reports, action: GroupAction::Merge(job) },
    )
}

/// Plans the move of the source files once tagging is over; see
/// `move_planned`.
fn plan_move(
    config: &Config,
    group: &AudioGroup,
    merged: String,
    applied: bool,
    reports: Vec<ProcessingProgress>,
    metadata: Option<BookMetadata>,
) -> (r: (GroupState, GroupStep))
    requires
        group.files@.len() > 0,
    ensures
        move_planned(*config, *group, merged@, applied, progress_views(reports@), r.0, r.1),
        r.0.wf(),
{
    match &config.completed_directory {
        Some(d) => {
            let mut reports = reports;
            let ghost before = reports@;
            let moving = report(
                ProcessingStage::MovingFiles,
                group.files[0].path.as_str(),
                group.files.len(),
                0,
                chars_of("Moving source files to completed directory..."),
            );
            reports.push(moving);
            assert(progress_views(reports@) =~= progress_views(before).push(moving@));
            let action = GroupAction::MoveFiles(file_paths(&group.files), d.clone());
            (
                GroupState { phase: GroupPhase::Moving, metadata, merged, metadata_applied: applied },
                GroupStep { reports, action },
            )
        },
        None => {
            let result = ProcessingResult {
                input_files: file_paths(&group.files),
                output_file: merged,
                metadata_applied: applied,
                files_moved: false,
            };
            (
                GroupState {
                    phase: GroupPhase::Done,
                    metadata,
                    merged: String::new(),
                    metadata_applied: applied,
                },
                GroupStep { reports, action: GroupAction::Finish(Ok(result)) },
            )
        },
    }
}

/// Plans the chapter work after the tags and the cover; see
/// `chapters_planned`.
fn plan_chapters(metadata: BookMetadata, merged: String) -> (r: (GroupState, GroupStep))
    ensures
        chapters_planned(metadata@, merged@, r.0, r.1),
        r.0.metadata == Some(metadata),
        r.0.wf(),
{
    if metadata.chapters.len() > 0 {
        let target = merged.clone();
        (
            GroupState {
                phase: GroupPhase::EmbeddingChapters,
                metadata: Some(metadata),
                merged,
                metadata_applied: false,
            },
            GroupStep { reports: Vec::new(), action: GroupAction::EmbedChapters(target) },
        )
    } else {
        proof {
            reveal_strlit("chapters.txt");
        }
        let target = with_extension(merged.as_str(), "chapters.txt");
        (
            GroupState {
                phase: GroupPhase::WritingChaptersTxt,
                metadata: Some(metadata),
                merged,
                metadata_applied: false,
            },
            GroupStep { reports: Vec::new(), action: GroupAction::WriteChaptersTxt(target) },
        )
    }
}

/// Whether `s` and `st` are the state and step that follow `state` on
/// `event`; see `group_step`.
pub open spec fn group_next(config: Config, has_source: bool, group: AudioGroup, state: GroupState, event: GroupEvent, s: GroupState, st: GroupStep) -> bool {
    match event {
        GroupEvent::Begin => match lookup_target(config, has_source, group.name@) {
            Some(id) => {
                &&& s.phase == GroupPhase::Fetching
                &&& s.metadata is None
                &&& progress_views(st.reports@) == seq![
                    lookup_progress(group.files@[0].path@, id),
                ]
                &&& st.action matches GroupAction::FetchMetadata(i)
                &&& i@ == id
            },
            None => merge_planned(config, group, None, s, st),
        },
        GroupEvent::MetadataFetched(m) => match m {
            Some(meta) => if meta.chapters@.len() == 0 {
                &&& s.phase == GroupPhase::ReadingChapters
                &&& s.metadata == m
                &&& st.reports@.len() == 0
                &&& st.action matches GroupAction::ReadChapters(p)
                &&& p@ == group.files@[0].path@
            } else {
                merge_planned(config, group, Some(meta@), s, st)
            },
            None => merge_planned(config, group, None, s, st),
        },
        GroupEvent::ChaptersRead(cs) => merge_planned(
            config,
            group,
            Some(with_file_chapters(state.metadata->Some_0@, cs@)),
            s,
            st,
        ),
        GroupEvent::Merged(res) => match res {
            Err(e) => {
                &&& s.phase == GroupPhase::Done
                &&& st.reports@.len() == 0
                &&& st.action matches GroupAction::Finish(Err(ProcessorError::Merge(e2)))
                &&& e2 == e
            },
            Ok(mp) => match state.metadata {
                Some(meta) => {
                    &&& s.phase == GroupPhase::WritingTags
                    &&& s.metadata == state.metadata
                    &&& s.merged@ == mp@
                    &&& progress_views(st.reports@) == seq![tagging_progress(mp@)]
                    &&& st.action matches GroupAction::WriteTags(p)
                    &&& p@ == mp@
                },
                None => move_planned(
                    config,
                    group,
                    mp@,
                    false,
                    seq![tagging_progress(mp@)],
                    s,
                    st,
                ),
            },
        },
        GroupEvent::TagsWritten(ok) => if !ok {
            move_planned(config, group, state.merged@, false, seq![], s, st)
        } else {
            &&& s.metadata == state.metadata
            &&& match state.metadata->Some_0.cover_url {
                Some(u) => {
                    &&& s.phase == GroupPhase::EmbeddingCover
                    &&& s.merged@ == state.merged@
                    &&& st.reports@.len() == 0
                    &&& st.action matches GroupAction::EmbedCover(p, url)
                    &&& p@ == state.merged@
                    &&& url@ == u@
                },
                None => chapters_planned(state.metadata->Some_0@, state.merged@, s, st),
            }
        },
        GroupEvent::StepDone => if state.phase == GroupPhase::EmbeddingCover {
            &&& s.metadata == state.metadata
            &&& chapters_planned(state.metadata->Some_0@, state.merged@, s, st)
        } else if state.phase == GroupPhase::EmbeddingChapters {
            &&& s.phase == GroupPhase::WritingChaptersTxt
            &&& s.metadata == state.metadata
            &&& s.merged@ == state.merged@
            &&& st.reports@.len() == 0
            &&& st.action matches GroupAction::WriteChaptersTxt(p)
            &&& p@ == path_with_extension(state.merged@, "chapters.txt"@)
        } else {
            move_planned(config, group, state.merged@, true, seq![], s, st)
        },
        GroupEvent::FilesMoved(moved) => {
            &&& s.phase == GroupPhase::Done
            &&& st.reports@.len() == 0
            &&& st.action matches GroupAction::Finish(Ok(res))
            &&& result_is(res, group.files@, state.merged@, state.metadata_applied, moved)
        },
    }
}

/// One step of processing `group`: given the outcome of the last piece of
/// work, what to report and what to do next. `has_source` says whether a
/// metadata source is configured.
///
/// A lookup is made where `lookup_target` gives an id; chapters are read
/// from the first input file where the metadata found has none; the group
/// then fails without an output directory, ends at once in a dry run, or is
/// merged. A failed merge fails the group. After a merge the tags are
/// written where there is metadata and, where that worked, the cover is
/// embedded (where the metadata has one), then the chapters (where there
/// are any), then the chapter list is written; the metadata counts as
/// applied exactly when the tags were written. Last, the source files are
/// moved where a completed directory is set.
pub fn group_step(
    config: &Config,
    has_source: bool,
    group: &AudioGroup,
    state: GroupState,
    event: GroupEvent,
) -> (r: (GroupState, GroupStep))
    requires
        group.files@.len() > 0 || (state.phase == GroupPhase::Start && lookup_target(
            *config,
            has_source,
            group.name@,
        ) is None),
        state.wf(),
        group_accepts(state.phase, event),
    ensures
        r.0.wf(),
        group_next(*config, has_source, *group, state, event, r.0, r.1),
{
    match event {
        GroupEvent::Begin => {
            match lookup_target_of(config, has_source, group.name.as_str()) {
                Some(id) => {
                    let mut message: Vec<char> = chars_of("Fetching metadata for ID: ");
                    extend_str(&mut message, id.as_str());
                    extend_str(&mut message, "...");
                    let first = report(
                        ProcessingStage::ApiLookup,
                        group.files[0].path.as_str(),
                        1,
                        0,
                        message,
                    );
                    let reports = vec![first];
                    assert(progress_views(reports@) =~= seq![
                        lookup_progress(group.files@[0].path@, id@),
                    ]);
                    (
                        GroupState {
                            phase: GroupPhase::Fetching,
                            metadata: None,
                            merged: String::new(),
                            metadata_applied: false,
                        },
                        GroupStep { reports, action: GroupAction::FetchMetadata(id) },
                    )
                },
                None => plan_merge(config, group, None),
            }
        },
        GroupEvent::MetadataFetched(m) => match m {
            Some(meta) => {
                if meta.chapters.len() == 0 {
                    let first = group.files[0].path.clone();
                    (
                        GroupState {
                            phase: GroupPhase::ReadingChapters,
                            metadata: Some(meta),
                            merged: String::new(),
                            metadata_applied: false,
                        },
                        GroupStep { reports: Vec::new(), action: GroupAction::ReadChapters(first) },
                    )
                } else {
                    plan_merge(config, group, Some(meta))
                }
            },
            None => plan_merge(config, group, None),
        },
        GroupEvent::ChaptersRead(cs) => {
            let mut meta = state.metadata.unwrap();
            if cs.len() > 0 {
                meta.chapters = chapters_from_file(&cs);
            }
            assert(meta@ == with_file_chapters(state.metadata->Some_0@, cs@));
            plan_merge(config, group, Some(meta))
        },
        GroupEvent::Merged(res) => match res {
            Err(e) => finished(state.metadata, Err(ProcessorError::Merge(e))),
            Ok(mp) => {
                let tagging = report(
                    ProcessingStage::Tagging,
                    mp.as_str(),
                    1,
                    0,
                    chars_of("Writing metadata and cover art..."),
                );
                let reports = vec![tagging];
                assert(progress_views(reports@) =~= seq![tagging_progress(mp@)]);
                match state.metadata {
                    Some(meta) => {
                        let target = mp.clone();
                        (
                            GroupState {
                                phase: GroupPhase::WritingTags,
                                metadata: Some(meta),
                                merged: mp,
                                metadata_applied: false,
                            },
                            GroupStep { reports, action: GroupAction::WriteTags(target) },
                        )
                    },
                    None => plan_move(config, group, mp, false, reports, None),
                }
            },
        },
        GroupEvent::TagsWritten(ok) => {
            if !ok {
                let none: Vec<ProcessingProgress> = Vec::new();
                assert(progress_views(none@) =~= Seq::<ProgressView>::empty());
                return plan_move(config, group, state.merged, false, none, state.metadata);
            }
            let meta = state.metadata.unwrap();
            match &meta.cover_url {
                Some(u) => {
                    let url = u.clone();
                    let target = state.merged.clone();
                    (
                        GroupState {
                            phase: GroupPhase::EmbeddingCover,
                            metadata: Some(meta),
                            merged: state.merged,
                            metadata_applied: false,
                        },
                        GroupStep { reports: Vec::new(), action: GroupAction::EmbedCover(target, url) },
                    )
                },
                None => plan_chapters(meta, state.merged),
            }
        },
        GroupEvent::StepDone => {
            if state.phase == GroupPhase::EmbeddingCover {
                plan_chapters(state.metadata.unwrap(), state.merged)
            } else if state.phase == GroupPhase::EmbeddingChapters {
                proof {
                    reveal_strlit("chapters.txt");
                }
                let target = with_extension(state.merged.as_str(), "chapters.txt");
                (
                    GroupState {
                        phase: GroupPhase::WritingChaptersTxt,
                        metadata: state.metadata,
                        merged: state.merged,
                        metadata_applied: false,
                    },
                    GroupStep { reports: Vec::new(), action: GroupAction::WriteChaptersTxt(target) },
                )
            } else {
                let none: Vec<ProcessingProgress> = Vec::new();
                assert(progress_views(none@) =~= Seq::<ProgressView>::empty());
                plan_move(config, group, state.merged, true, none, state.metadata)
            }
        },
        GroupEvent::FilesMoved(moved) => {
            let result = ProcessingResult {
                input_files: file_paths(&group.files),
                output_file: state.merged,
                metadata_applied: state.metadata_applied,
                files_moved: moved,
            };
            finished(state.metadata, Ok(result))
        },
    }
}

/// The stages of processing a batch.
#[derive(Debug, Clone, Copy, PartialEq, Eq, Structural)]
pub enum BatchPhase {
    Start,
    CreatingOutput,
    Discovering,
    Processing,
    Done,
}

/// What processing a batch has gathered so far. The group being processed
/// is the one after all that succeeded or failed.
pub struct BatchState {
    /// The stage it waits in.
    pub phase: BatchPhase,
    /// The input paths.
    pub inputs: Vec<String>,
    /// The groups discovered.
    pub groups: Vec<AudioGroup>,
    /// The results of the groups that succeeded.
    pub results: Vec<ProcessingResult>,
    /// The name and error of each group that failed.
    pub failed: Vec<(String, String)>,
}

/// The outcome of the last piece of work on a batch.
pub enum BatchEvent {
    /// Processing starts.
    Begin,
    /// Creating the output directory ended, with the error's text where it
    /// failed.
    OutputDirCreated(Result<(), String>),
    /// Discovery ended, with the groups found or the error.
    Discovered(Result<Vec<AudioGroup>, DiscoveryError>),
    /// The current group was processed.
    GroupSucceeded(ProcessingResult),
    /// The current group failed, with the error's text.
    GroupFailed(String),
}

/// The next piece of work on a batch.
pub enum BatchAction {
    /// Create this output directory (and its parents).
    CreateOutputDir(String),
    /// Discover and group the audio files of these inputs.
    Discover(Vec<String>),
    /// Process the group at this index of the state's groups.
    ProcessGroup(usize),
    /// A dry run found nothing to do: say so; the batch has no results.
    FinishNothingFound,
    /// The batch is over, with this outcome.
    Finish(Result<Vec<ProcessingResult>, ProcessorError>),
}

/// What to report, then what to do.
pub struct BatchStep {
    pub reports: Vec<ProcessingProgress>,
    pub action: BatchAction,
}

/// Whether every group has a file.
pub open spec fn groups_have_files(gs: Seq<AudioGroup>) -> bool {
    forall|k: int| 0 <= k < gs.len() ==> (#[trigger] gs[k]).files@.len() > 0
}

/// Whether `event` is the outcome that a batch in `phase` waits for (and,
/// for discovered groups, whether each has a file).
pub open spec fn batch_accepts(phase: BatchPhase, event: BatchEvent) -> bool {
    match event {
        BatchEvent::Begin => phase == BatchPhase::Start,
        BatchEvent::OutputDirCreated(_) => phase == BatchPhase::CreatingOutput,
        BatchEvent::Discovered(r) => phase == BatchPhase::Discovering && match r {
            Ok(gs) => groups_have_files(gs@),
            Err(_) => true,
        },
        BatchEvent::GroupSucceeded(_) => phase == BatchPhase::Processing,
        BatchEvent::GroupFailed(_) => phase == BatchPhase::Processing,
    }
}

/// The report before discovery.
pub open spec fn discovery_progress(inputs: nat) -> ProgressView {
    ProgressView {
        stage: ProcessingStage::Discovery,
        current_file: None,
        total_files: inputs,
        completed_files: 0,
        message: "Discovering audio files..."@,
    }
}

/// The report before group `index` of `total` is processed.
pub open spec fn group_progress(g: AudioGroup, total: nat, index: nat) -> ProgressView {
    file_progress(
        ProcessingStage::Merging,
        g.files@[0].path@,
        total,
        index,
        "Processing group '"@ + g.name@ + "'..."@,
    )
}

/// The report once group `index` of `total` failed with `message`.
pub open spec fn failure_progress(g: AudioGroup, total: nat, index: nat, message: Seq<char>) -> ProgressView {
    file_progress(
        ProcessingStage::Error,
        g.files@[0].path@,
        total,
        index,
        "Failed to process group '"@ + g.name@ + "': "@ + message,
    )
}

/// The report once a batch of `total` groups succeeded with `done` books.
pub open spec fn complete_progress(total: nat, done: nat) -> ProgressView {
    ProgressView {
        stage: ProcessingStage::Complete,
        current_file: None,
        total_files: total,
        completed_files: done,
        message: "Completed processing "@ + dec(done) + " audiobooks"@,
    }
}

/// Once a group is over, with `results` and `failed` gathered from
/// `groups`: the next group is processed where there is one, else the batch
/// ends with what its groups amount to, reporting completion where that is
/// success.
pub open spec fn next_planned(
    groups: Seq<AudioGroup>,
    results: Seq<ProcessingResult>,
    failed: Seq<(String, String)>,
    before: Seq<ProgressView>,
    s: BatchState,
    st: BatchStep,
) -> bool {
    let total = groups.len();
    let next = results.len() + failed.len();
    if next < total {
        &&& s.phase == BatchPhase::Processing
        &&& s.groups@ == groups
        &&& s.results@ == results
        &&& s.failed@ == failed
        &&& progress_views(st.reports@) == before.push(group_progress(groups[next as int], total, next))
        &&& st.action == BatchAction::ProcessGroup(next as usize)
    } else {
        &&& s.phase == BatchPhase::Done
        &&& st.action matches BatchAction::Finish(outcome)
        &&& batch_outcome_is(results, failed, total, outcome)
        &&& progress_views(st.reports@) == match outcome {
            Ok(rs) => before.push(complete_progress(total, rs@.len())),
            Err(_) => before,
        }
    }
}

/// Whether every group of `gs` has a file.
fn all_have_files(gs: &Vec<AudioGroup>) -> (b: bool)
    ensures
        b == groups_have_files(gs@),
{
    let mut k: usize = 0;
    while k < gs.len()
        invariant
            k <= gs@.len(),
            forall|j: int| 0 <= j < k ==> (#[trigger] gs@[j]).files@.len() > 0,
        decreases gs.len() - k,
    {
        if gs[k].files.len() == 0 {
            assert(gs@[k as int].files@.len() == 0);
            return false;
        }
        k = k + 1;
    }
    true
}

impl BatchState {
    /// The groups have files, and while processing, the current group is
    /// one of them.
    pub open spec fn wf(&self) -> bool {
        &&& groups_have_files(self.groups@)
        &&& self.phase == BatchPhase::Processing ==> self.results@.len() + self.failed@.len()
            < self.groups@.len()
    }

    /// A batch of `inputs` about to be processed.
    pub fn new(inputs: Vec<String>) -> (s: BatchState)
        ensures
            s.phase == BatchPhase::Start,
            s.inputs == inputs,
            s.groups@.len() == 0,
            s.results@.len() == 0,
            s.failed@.len() == 0,
            s.wf(),
    {
        BatchState {
            phase: BatchPhase::Start,
            inputs,
            groups: Vec::new(),
            results: Vec::new(),
            failed: Vec::new(),
        }
    }

    /// Whether `event` is the outcome this batch waits for (and, for
    /// discovered groups, whether each has a file).
    pub fn accepts(&self, event: &BatchEvent) -> (b: bool)
        ensures
            b == batch_accepts(self.phase, *event),
    {
        match event {
            BatchEvent::Begin => self.phase == BatchPhase::Start,
            BatchEvent::OutputDirCreated(_) => self.phase == BatchPhase::CreatingOutput,
            BatchEvent::Discovered(r) => {
                if self.phase != BatchPhase::Discovering {
                    return false;
                }
                match r {
                    Ok(gs) => all_have_files(gs),
                    Err(_) => true,
                }
            },
            BatchEvent::GroupSucceeded(_) => self.phase == BatchPhase::Processing,
            BatchEvent::GroupFailed(_) => self.phase == BatchPhase::Processing,
        }
    }
}

/// The start of discovery.
fn start_discovery(inputs: Vec<String>) -> (r: (BatchState, BatchStep))
    ensures
        r.0.phase == BatchPhase::Discovering,
        r.0.inputs == inputs,
        r.0.wf(),
        progress_views(r.1.reports@) == seq![discovery_progress(inputs@.len())],
        r.1.action matches BatchAction::Discover(v) && string_views(v@) == string_views(inputs@),
{
    let first = ProcessingProgress {
        stage: ProcessingStage::Discovery,
        current_file: None,
        total_files: inputs.len(),
        completed_files: 0,
        message: "Discovering audio files...".to_owned(),
    };
    let reports = vec![first];
    assert(progress_views(reports@) =~= seq![discovery_progress(inputs@.len())]);
    let mut copy: Vec<String> = Vec::new();
    let mut k: usize = 0;
    while k < inputs.len()
        invariant
            k <= inputs@.len(),
            string_views(copy@) == string_views(inputs@.take(k as int)),
        decreases inputs.len() - k,
    {
        let ghost before = copy@;
        copy.push(inputs[k].clone());
        assert(string_views(copy@) =~= string_views(before).push(inputs@[k as int]@));
        assert(string_views(inputs@.take(k + 1)) =~= string_views(inputs@.take(k as int)).push(
            inputs@[k as int]@,
        ));
        k = k + 1;
    }
    assert(inputs@.take(inputs.len() as int) =~= inputs@);
    (
        BatchState {
            phase: BatchPhase::Discovering,
            inputs,
            groups: Vec::new(),
            results: Vec::new(),
            failed: Vec::new(),
        },
        BatchStep { reports, action: BatchAction::Discover(copy) },
    )
}

/// A batch that is over.
fn batch_finished(inputs: Vec<String>, action: BatchAction) -> (r: (BatchState, BatchStep))
    ensures
        r.0.phase == BatchPhase::Done,
        r.0.wf(),
        r.1.reports@.len() == 0,
        r.1.action == action,
{
    (
        BatchState {
            phase: BatchPhase::Done,
            inputs,
            groups: Vec::new(),
            results: Vec::new(),
            failed: Vec::new(),
        },
        BatchStep { reports: Vec::new(), action },
    )
}

/// Goes on after a group is over; see `next_planned`.
fn plan_next(
    inputs: Vec<String>,
    groups: Vec<AudioGroup>,
    results: Vec<ProcessingResult>,
    failed: Vec<(String, String)>,
    reports: Vec<ProcessingProgress>,
) -> (r: (BatchState, BatchStep))
    requires
        groups_have_files(groups@),
        results@.len() + failed@.len() <= groups@.len(),
    ensures
        next_planned(groups@, results@, failed@, progress_views(reports@), r.0, r.1),
        r.0.wf(),
{
    let mut reports = reports;
    let ghost before = reports@;
    let total = groups.len();
    let next = results.len() + failed.len();
    if next < total {
        let g = &groups[next];
        assert(groups@[next as int].files@.len() > 0);
        let mut message: Vec<char> = chars_of("Processing group '");
        extend_str(&mut message, g.name.as_str());
        extend_str(&mut message, "'...");
        let p = report(ProcessingStage::Merging, g.files[0].path.as_str(), total, next, message);
        reports.push(p);
        assert(progress_views(reports@) =~= progress_views(before).push(p@));
        let state = BatchState { phase: BatchPhase::Processing, inputs, groups, results, failed };
        return (state, BatchStep { reports, action: BatchAction::ProcessGroup(next) });
    }
    let outcome = batch_outcome(results, failed, total);
    let action = match outcome {
        Ok(rs) => {
            let mut message: Vec<char> = chars_of("Completed processing ");
            let n = dec_exec(rs.len() as u128);
            extend_chars(&mut message, n.as_slice());
            extend_str(&mut message, " audiobooks");
            let p = ProcessingProgress {
                stage: ProcessingStage::Complete,
                current_file: None,
                total_files: total,
                completed_files: rs.len(),
                message: string_of(message.as_slice()),
            };
            reports.push(p);
            assert(progress_views(reports@) =~= progress_views(before).push(
                complete_progress(total as nat, rs@.len()),
            ));
            BatchAction::Finish(Ok(rs))
        },
        Err(e) => BatchAction::Finish(Err(e)),
    };
    (
        BatchState { phase: BatchPhase::Done, inputs, groups: Vec::new(), results: Vec::new(), failed: Vec::new() },
        BatchStep { reports, action },
    )
}

/// Whether discovery of `inputs` starts: reported, then asked for.
pub open spec fn discovery_started(inputs: Vec<String>, s: BatchState, st: BatchStep) -> bool {
    &&& s.phase == BatchPhase::Discovering
    &&& s.inputs == inputs
    &&& progress_views(st.reports@) == seq![discovery_progress(inputs@.len())]
    &&& st.action matches BatchAction::Discover(v)
    &&& string_views(v@) == string_views(inputs@)
}

/// Whether `s` and `st` are the state and step that follow `state` on
/// `event`; see `batch_step`.
pub open spec fn batch_next(config: Config, state: BatchState, event: BatchEvent, s: BatchState, st: BatchStep) -> bool {
    match event {
        BatchEvent::Begin => if state.inputs@.len() == 0 {
            &&& s.phase == BatchPhase::Done
            &&& st.reports@.len() == 0
            &&& st.action matches BatchAction::Finish(Err(ProcessorError::NoInputs))
        } else if !config.dry_run && config.output is Some {
            &&& s.phase == BatchPhase::CreatingOutput
            &&& s.inputs == state.inputs
            &&& st.reports@.len() == 0
            &&& st.action matches BatchAction::CreateOutputDir(d)
            &&& d@ == config.output->Some_0@
        } else {
            discovery_started(state.inputs, s, st)
        },
        BatchEvent::OutputDirCreated(res) => match res {
            Err(m) => {
                &&& s.phase == BatchPhase::Done
                &&& st.reports@.len() == 0
                &&& st.action matches BatchAction::Finish(
                    Err(ProcessorError::OutputDirCreation(m2)),
                )
                &&& m2@ == m@
            },
            Ok(_) => discovery_started(state.inputs, s, st),
        },
        BatchEvent::Discovered(res) => match res {
            Err(e) => {
                &&& s.phase == BatchPhase::Done
                &&& st.reports@.len() == 0
                &&& if config.dry_run {
                    st.action == BatchAction::FinishNothingFound
                } else {
                    st.action matches BatchAction::Finish(Err(ProcessorError::Discovery(e2)))
                        && e2 == e
                }
            },
            Ok(gs) => if gs@.len() == 0 {
                &&& s.phase == BatchPhase::Done
                &&& st.reports@.len() == 0
                &&& if config.dry_run {
                    st.action == BatchAction::FinishNothingFound
                } else {
                    st.action matches BatchAction::Finish(Err(ProcessorError::NoInputs))
                }
            } else {
                next_planned(gs@, seq![], seq![], seq![], s, st)
            },
        },
        BatchEvent::GroupSucceeded(res) => next_planned(
            state.groups@,
            state.results@.push(res),
            state.failed@,
            seq![],
            s,
            st,
        ),
        BatchEvent::GroupFailed(m) => {
            let i = state.results@.len() + state.failed@.len();
            let g = state.groups@[i as int];
            next_planned(
                state.groups@,
                state.results@,
                state.failed@.push((g.name, m)),
                seq![failure_progress(g, state.groups@.len(), i, m@)],
                s,
                st,
            )
        },
    }
}

/// One step of processing a batch: given the outcome of the last piece of
/// work, what to report and what to do next.
///
/// A batch without inputs fails. Outside a dry run the output directory is
/// created first, and a failure to create it fails the batch. Then the
/// inputs are discovered: in a dry run, a discovery error or no groups ends
/// the batch with nothing done; otherwise a discovery error fails the batch
/// and no groups is a batch without inputs. Each group is then processed in
/// turn, each failure reported and recorded with the group's name, and the
/// batch amounts to what `batch_outcome` makes of the results and failures.
pub fn batch_step(config: &Config, state: BatchState, event: BatchEvent) -> (r: (BatchState, BatchStep))
    requires
        state.wf(),
        batch_accepts(state.phase, event),
    ensures
        r.0.wf(),
        batch_next(*config, state, event, r.0, r.1),
{
    match event {
        BatchEvent::Begin => {
            if state.inputs.len() == 0 {
                return batch_finished(state.inputs, BatchAction::Finish(Err(ProcessorError::NoInputs)));
            }
            if !config.dry_run {
                match &config.output {
                    Some(d) => {
                        let dir = d.clone();
                        return (
                            BatchState { phase: BatchPhase::CreatingOutput, ..state },
                            BatchStep { reports: Vec::new(), action: BatchAction::CreateOutputDir(dir) },
                        );
                    },
                    None => {},
                }
            }
            start_discovery(state.inputs)
        },
        BatchEvent::OutputDirCreated(res) => match res {
            Err(m) => batch_finished(
                state.inputs,
                BatchAction::Finish(Err(ProcessorError::OutputDirCreation(m))),
            ),
            Ok(_) => start_discovery(state.inputs),
        },
        BatchEvent::Discovered(res) => match res {
            Err(e) => {
                if config.dry_run {
                    batch_finished(state.inputs, BatchAction::FinishNothingFound)
                } else {
                    batch_finished(state.inputs, BatchAction::Finish(Err(ProcessorError::Discovery(e))))
                }
            },
            Ok(gs) => {
                if gs.len() == 0 {
                    if config.dry_run {
                        batch_finished(state.inputs, BatchAction::FinishNothingFound)
                    } else {
                        batch_finished(state.inputs, BatchAction::Finish(Err(ProcessorError::NoInputs)))
                    }
                } else {
                    let none: Vec<ProcessingProgress> = Vec::new();
                    assert(progress_views(none@) =~= Seq::<ProgressView>::empty());
                    let results: Vec<ProcessingResult> = Vec::new();
                    let failed: Vec<(String, String)> = Vec::new();
                    assert(results@ =~= Seq::<ProcessingResult>::empty());
                    assert(failed@ =~= Seq::<(String, String)>::empty());
                    plan_next(state.inputs, gs, results, failed, none)
                }
            },
        },
        BatchEvent::GroupSucceeded(res) => {
            let BatchState { phase: _, inputs, groups, results, failed } = state;
            let mut results = results;
            results.push(res);
            let none: Vec<ProcessingProgress> = Vec::new();
            assert(progress_views(none@) =~= Seq::<ProgressView>::empty());
            plan_next(inputs, groups, results, failed, none)
        },
        BatchEvent::GroupFailed(m) => {
            let BatchState { phase: _, inputs, groups, results, failed } = state;
            let total = groups.len();
            let i = results.len() + failed.len();
            let g = &groups[i];
            assert(groups@[i as int].files@.len() > 0);
            let mut message: Vec<char> = chars_of("Failed to process group '");
            extend_str(&mut message, g.name.as_str());
            extend_str(&mut message, "': ");
            extend_str(&mut message, m.as_str());
            let p = report(ProcessingStage::Error, g.files[0].path.as_str(), total, i, message);
            let reports = vec![p];
            assert(progress_views(reports@) =~= seq![
                failure_progress(groups@[i as int], total as nat, i as nat, m@),
            ]);
            let name = g.name.clone();
            let mut failed = failed;
            failed.push((name, m));
            plan_next(inputs, groups, results, failed, reports)
        },
    }
}

/// Law: in a dry run, processing a group ends at its first step, with
/// nothing reported and nothing looked up, merged, tagged or moved; where it
/// succeeds, its result says that no metadata was applied and no file moved.
pub proof fn lemma_dry_run_group_is_one_step(
    config: Config,
    has_source: bool,
    group: AudioGroup,
    state: GroupState,
    s: GroupState,
    st: GroupStep,
)
    requires
        config.dry_run,
        state.phase == GroupPhase::Start,
        group_next(config, has_source, group, state, GroupEvent::Begin, s, st),
    ensures
        s.phase == GroupPhase::Done,
        st.reports@.len() == 0,
        st.action is Finish,
        st.action matches GroupAction::Finish(Ok(r)) ==> !r.metadata_applied && !r.files_moved,
{
}

/// Law: a dry run creates no directory.
pub proof fn lemma_dry_run_creates_no_directory(config: Config, state: BatchState, s: BatchState, st: BatchStep)
    requires
        config.dry_run,
        batch_next(config, state, BatchEvent::Begin, s, st),
    ensures
        !(st.action is CreateOutputDir),
{
}

/// Law: once a group is over, whether it succeeded or failed, the next
/// group is processed, in order; after the last one the batch ends with
/// every group counted once, as a result or as a failure.
pub proof fn lemma_groups_in_turn(config: Config, state: BatchState, event: BatchEvent, s: BatchState, st: BatchStep)
    requires
        state.wf(),
        state.phase == BatchPhase::Processing,
        event is GroupSucceeded || event is GroupFailed,
        batch_next(config, state, event, s, st),
    ensures
        ({
            let k = state.results@.len() + state.failed@.len();
            if k + 1 < state.groups@.len() {
                &&& st.action == BatchAction::ProcessGroup((k + 1) as usize)
                &&& s.groups@ == state.groups@
                &&& s.results@.len() + s.failed@.len() == k + 1
            } else {
                &&& st.action is Finish
                &&& k + 1 == state.groups@.len()
            }
        }),
{
    match event {
        BatchEvent::GroupSucceeded(res) => {
            assert(state.results@.push(res).len() == state.results@.len() + 1);
        },
        BatchEvent::GroupFailed(m) => {
            let g = state.groups@[(state.results@.len() + state.failed@.len()) as int];
            assert(state.failed@.push((g.name, m)).len() == state.failed@.len() + 1);
        },
        _ => {},
    }
}

/// Law: once the tags are written, the chapters come next: the cover first
/// where the metadata has one, then the chapters where it has any, then the
/// chapter list; a group whose tags were written reaches neither the move
/// nor its end before the chapter list is being written.
pub proof fn lemma_chapters_after_tags(
    config: Config,
    has_source: bool,
    group: AudioGroup,
    state: GroupState,
    event: GroupEvent,
    s: GroupState,
    st: GroupStep,
)
    requires
        state.wf(),
        group_accepts(state.phase, event),
        (state.phase == GroupPhase::WritingTags && event == GroupEvent::TagsWritten(true))
            || state.phase == GroupPhase::EmbeddingCover || state.phase == GroupPhase::EmbeddingChapters,
        group_next(config, has_source, group, state, event, s, st),
    ensures
        s.phase == GroupPhase::EmbeddingCover || s.phase == GroupPhase::EmbeddingChapters || s.phase
            == GroupPhase::WritingChaptersTxt,
        s.metadata == state.metadata,
        ({
            let m = state.metadata->Some_0;
            let cover_done = state.phase == GroupPhase::EmbeddingCover || (state.phase
                == GroupPhase::WritingTags && m.cover_url is None);
            &&& (state.phase == GroupPhase::WritingTags && m.cover_url is Some) ==> (st.action matches GroupAction::EmbedCover(p, u) && p@ == state.merged@ && Some(u@) == crate::metadata::opt_view(m.cover_url))
            &&& (cover_done && m.chapters@.len() > 0) ==> (st.action matches GroupAction::EmbedChapters(p) && p@ == state.merged@)
            &&& (cover_done && m.chapters@.len() == 0) ==> (st.action matches GroupAction::WriteChaptersTxt(p) && p@ == crate::paths::path_with_extension(state.merged@, "chapters.txt"@))
            &&& state.phase == GroupPhase::EmbeddingChapters ==> (st.action matches GroupAction::WriteChaptersTxt(p) && p@ == crate::paths::path_with_extension(state.merged@, "chapters.txt"@))
        }),
{
}

} // verus!
