//! The decisions of one download job, as a state machine: the worker
//! performs each action and hands back what came of it. A job fetches the
//! track's metadata, skips the download when a copy is already on disk,
//! fetches the cover (failure is no obstacle), downloads the audio, moves it
//! to its final path and writes the tags (failure is no obstacle either).

use vstd::prelude::*;
use crate::audio::AudioFormat;
use crate::container::{Track, TrackCollection};
use crate::coordinator::{ProgressUpdate, TrackInfo, TrackInfoView};
use crate::output_path::{album_dir_text, artist_dir_text, build_output_dir, build_output_path, build_output_stem, file_name_text, file_stem_text};
use crate::paths::{joined, pushed_path};
use crate::status::TaskStatus;
use crate::tagger::{plan_tags, plans_tags, TagPlan};
use crate::text::owned;

verus! {

/// Where a job stands.
#[derive(PartialEq, Eq, Structural, Clone, Copy, Debug)]
pub enum JobStage {
    FetchingMetadata,
    CheckingExisting,
    FetchingCover,
    Downloading,
    Persisting,
    Tagging,
    Finished,
}

/// A job's state: its stage, what it is about, and what it has learnt.
#[derive(Debug)]
pub struct JobState {
    pub stage: JobStage,
    pub task_id: u128,
    pub collection_id: String,
    pub output_dir: String,
    pub collection: TrackCollection,
    /// The track's metadata, once fetched.
    pub track: Option<Track>,
    /// Whether non-empty cover bytes were fetched.
    pub has_cover: bool,
    /// The format of the downloaded audio, once downloaded.
    pub format: Option<AudioFormat>,
}

/// What came of the last action.
#[derive(Debug)]
pub enum JobEvent {
    /// The track's metadata.
    Metadata(Track),
    MetadataFailed(String),
    /// A file for the track, in any format, is already on disk.
    ExistingFound,
    NoExisting,
    /// The cover was fetched; whether its bytes are non-empty.
    Cover(bool),
    /// The cover could not be fetched.
    CoverFailed,
    /// The audio was downloaded in this format.
    Downloaded(AudioFormat),
    DownloadFailed(String),
    /// The audio was moved to its final path.
    Persisted,
    PersistFailed(String),
    /// The tags were written, or writing them failed.
    TagsWritten(bool),
}

/// What the worker is to do next.
#[derive(Debug)]
pub enum JobAction {
    /// Report this progress.
    Emit(ProgressUpdate),
    /// Look for a file at this path with any extension.
    LookForExisting { stem: String },
    /// Fetch the cover with this id.
    FetchCover { cover_id: String },
    /// Create this directory and download the audio.
    Download { dir: String },
    /// Move the downloaded audio to this path.
    Persist { path: String },
    /// Write these tags (with the cover, when fetched) into the file.
    WriteTags(TagPlan),
    /// The job is over, with this closing message or error.
    Finish(Result<Option<String>, String>),
}

/// The track metadata reported once it is known.
pub open spec fn info_of(t: Track) -> TrackInfoView {
    TrackInfoView {
        title: t.title,
        artists: t.artists@,
        number: t.number,
        disc_number: t.disc_number,
        duration_ms: t.duration_ms,
    }
}

/// The cover id of a track, empty when it has none.
pub open spec fn cover_id_text(t: Track) -> Seq<char> {
    match t.cover_id {
        Some(c) => c@,
        None => Seq::empty(),
    }
}

/// `a` reports `Running` with message `msg` for the job's task.
pub open spec fn emits(a: JobAction, s: JobState, msg: Seq<char>, info: Option<TrackInfoView>) -> bool {
    match a {
        JobAction::Emit(u) => {
            &&& u.task_id == s.task_id
            &&& u.collection_id@ == s.collection_id@
            &&& u.status is Running
            &&& match u.message {
                Some(m) => m@ == msg,
                None => false,
            }
            &&& match u.track_info {
                Some(i) => info == Some(i@),
                None => info is None,
            }
        },
        _ => false,
    }
}

/// `a` ends the job successfully with message `msg`.
pub open spec fn finishes_ok(a: JobAction, msg: Seq<char>) -> bool {
    match a {
        JobAction::Finish(Ok(Some(m))) => m@ == msg,
        _ => false,
    }
}

/// `a` ends the job with error `e`.
pub open spec fn finishes_err(a: JobAction, e: Seq<char>) -> bool {
    match a {
        JobAction::Finish(Err(x)) => x@ == e,
        _ => false,
    }
}

/// `n` is `s` at stage `stage`, with nothing else changed.
pub open spec fn moved_to(s: JobState, n: JobState, stage: JobStage) -> bool {
    n == JobState { stage, ..s }
}

/// The job's transition on event `e` from state `s` to state `n` with
/// actions `acts`. An event that does not fit the stage changes nothing.
pub open spec fn job_transition(s: JobState, e: JobEvent, n: JobState, acts: Seq<JobAction>) -> bool {
    let out = s.output_dir@;
    let c = s.collection;
    match (s.stage, e) {
        (JobStage::FetchingMetadata, JobEvent::Metadata(t)) => {
            &&& n == JobState { stage: JobStage::CheckingExisting, track: Some(t), ..s }
            &&& acts.len() == 2
            &&& emits(acts[0], s, "Running…"@, Some(info_of(t)))
            &&& acts[1] matches JobAction::LookForExisting { stem }
            &&& stem@ == pushed_path(seq![out, artist_dir_text(t), album_dir_text(c), file_stem_text(t)])
        },
        (JobStage::FetchingMetadata, JobEvent::MetadataFailed(err)) => {
            &&& moved_to(s, n, JobStage::Finished)
            &&& acts.len() == 1 && finishes_err(acts[0], err@)
        },
        (JobStage::CheckingExisting, JobEvent::ExistingFound) => {
            &&& moved_to(s, n, JobStage::Finished)
            &&& acts.len() == 1 && finishes_ok(acts[0], "File already exists"@)
        },
        (JobStage::CheckingExisting, JobEvent::NoExisting) => match s.track {
            Some(t) => {
                &&& moved_to(s, n, JobStage::FetchingCover)
                &&& acts.len() == 2
                &&& emits(acts[0], s, "Fetching cover art…"@, None)
                &&& acts[1] matches JobAction::FetchCover { cover_id }
                &&& cover_id@ == cover_id_text(t)
            },
            None => n == s && acts.len() == 0,
        },
        (JobStage::FetchingCover, JobEvent::Cover(has)) => match s.track {
            Some(t) => {
                &&& n == JobState { stage: JobStage::Downloading, has_cover: has, ..s }
                &&& acts.len() == 2
                &&& emits(acts[0], s, "Downloading audio…"@, None)
                &&& acts[1] matches JobAction::Download { dir }
                &&& dir@ == pushed_path(seq![out, artist_dir_text(t), album_dir_text(c)])
            },
            None => n == s && acts.len() == 0,
        },
        (JobStage::FetchingCover, JobEvent::CoverFailed) => match s.track {
            Some(t) => {
                &&& n == JobState { stage: JobStage::Downloading, has_cover: false, ..s }
                &&& acts.len() == 2
                &&& emits(acts[0], s, "Downloading audio…"@, None)
                &&& acts[1] matches JobAction::Download { dir }
                &&& dir@ == pushed_path(seq![out, artist_dir_text(t), album_dir_text(c)])
            },
            None => n == s && acts.len() == 0,
        },
        (JobStage::Downloading, JobEvent::Downloaded(f)) => match s.track {
            Some(t) => {
                &&& n == JobState { stage: JobStage::Persisting, format: Some(f), ..s }
                &&& acts.len() == 1
                &&& acts[0] matches JobAction::Persist { path }
                &&& path@ == pushed_path(seq![out, artist_dir_text(t), album_dir_text(c), file_name_text(t, f)])
            },
            None => n == s && acts.len() == 0,
        },
        (JobStage::Downloading, JobEvent::DownloadFailed(err)) => {
            &&& moved_to(s, n, JobStage::Finished)
            &&& acts.len() == 1 && finishes_err(acts[0], err@)
        },
        (JobStage::Persisting, JobEvent::Persisted) => match s.track {
            Some(t) => {
                &&& moved_to(s, n, JobStage::Tagging)
                &&& acts.len() == 2
                &&& emits(acts[0], s, "Writing tags…"@, None)
                &&& acts[1] matches JobAction::WriteTags(plan)
                &&& plans_tags(plan, t, c, s.has_cover)
            },
            None => n == s && acts.len() == 0,
        },
        (JobStage::Persisting, JobEvent::PersistFailed(err)) => {
            &&& moved_to(s, n, JobStage::Finished)
            &&& acts.len() == 1 && finishes_err(acts[0], err@)
        },
        (JobStage::Tagging, JobEvent::TagsWritten(_)) => {
            &&& moved_to(s, n, JobStage::Finished)
            &&& acts.len() == 1 && finishes_ok(acts[0], "Downloaded"@)
        },
        _ => n == s && acts.len() == 0,
    }
}

/// The cover a job fetches is the cover its tags embed: from fetching the
/// cover, through the download and the move into place, the tag plan embeds
/// a cover exactly when non-empty cover bytes came back, and never when the
/// fetch failed.
pub proof fn law_fetched_cover_is_embedded(
    s0: JobState,
    cover: JobEvent,
    s1: JobState,
    a1: Seq<JobAction>,
    f: AudioFormat,
    s2: JobState,
    a2: Seq<JobAction>,
    s3: JobState,
    a3: Seq<JobAction>,
)
    requires
        s0.stage == JobStage::FetchingCover,
        s0.track is Some,
        cover is Cover || cover is CoverFailed,
        job_transition(s0, cover, s1, a1),
        job_transition(s1, JobEvent::Downloaded(f), s2, a2),
        job_transition(s2, JobEvent::Persisted, s3, a3),
    ensures
        s3.stage == JobStage::Tagging,
        a3.len() == 2,
        a3[1] matches JobAction::WriteTags(plan) && plan.embed_cover == (cover matches JobEvent::Cover(has) && has),
{
}

/// The files a job touches agree: the directory it downloads into is the one
/// that holds both the file it looked for before and the file it moves the
/// audio to, named by the track's stem and by that stem with the downloaded
/// format's extension.
pub proof fn law_job_paths_agree(
    s0: JobState,
    t: Track,
    s1: JobState,
    a1: Seq<JobAction>,
    s2: JobState,
    a2: Seq<JobAction>,
    cover: JobEvent,
    s3: JobState,
    a3: Seq<JobAction>,
    f: AudioFormat,
    s4: JobState,
    a4: Seq<JobAction>,
)
    requires
        s0.stage == JobStage::FetchingMetadata,
        cover is Cover || cover is CoverFailed,
        job_transition(s0, JobEvent::Metadata(t), s1, a1),
        job_transition(s1, JobEvent::NoExisting, s2, a2),
        job_transition(s2, cover, s3, a3),
        job_transition(s3, JobEvent::Downloaded(f), s4, a4),
    ensures
        s4.stage == JobStage::Persisting,
        a1.len() == 2 && a3.len() == 2 && a4.len() == 1,
        a1[1] matches JobAction::LookForExisting { stem }
            && a3[1] matches JobAction::Download { dir }
            && a4[0] matches JobAction::Persist { path }
            && stem@ == joined(dir@, file_stem_text(t))
            && path@ == joined(dir@, file_name_text(t, f)),
{
    let out = s0.output_dir@;
    let c = s0.collection;
    let d = seq![out, artist_dir_text(t), album_dir_text(c)];
    assert(seq![out, artist_dir_text(t), album_dir_text(c), file_stem_text(t)].drop_last() =~= d);
    assert(seq![out, artist_dir_text(t), album_dir_text(c), file_name_text(t, f)].drop_last() =~= d);
}

/// Once the audio is in place the job succeeds with `Downloaded`, whether
/// or not writing the tags worked, and the outcome of writing them changes
/// nothing else.
pub proof fn law_tag_failure_still_downloads(
    s: JobState,
    b1: bool,
    n1: JobState,
    a1: Seq<JobAction>,
    b2: bool,
    n2: JobState,
    a2: Seq<JobAction>,
)
    requires
        s.stage == JobStage::Tagging,
        job_transition(s, JobEvent::TagsWritten(b1), n1, a1),
        job_transition(s, JobEvent::TagsWritten(b2), n2, a2),
    ensures
        n1 == n2,
        n1.stage == JobStage::Finished,
        a1.len() == 1 && a2.len() == 1,
        a1[0] matches JobAction::Finish(Ok(Some(m))) && m@ == "Downloaded"@,
        a2[0] matches JobAction::Finish(Ok(Some(m))) && m@ == "Downloaded"@,
{
}

/// A failed step ends the job at once, with that step's error: the job
/// moves to `Finished` and its only action reports the error.
pub proof fn law_failure_ends_job_with_its_error(s: JobState, e: JobEvent, err: String, n: JobState, acts: Seq<JobAction>)
    requires
        (s.stage == JobStage::FetchingMetadata && e == JobEvent::MetadataFailed(err))
            || (s.stage == JobStage::Downloading && e == JobEvent::DownloadFailed(err))
            || (s.stage == JobStage::Persisting && e == JobEvent::PersistFailed(err)),
        job_transition(s, e, n, acts),
    ensures
        n.stage == JobStage::Finished,
        n.track == s.track && n.has_cover == s.has_cover && n.format == s.format,
        acts.len() == 1,
        acts[0] matches JobAction::Finish(Err(x)) && x@ == err@,
{
}

/// On `Persisted`, the tags written embed the cover exactly when the job
/// holds one.
pub proof fn law_tags_embed_held_cover(s: JobState, n: JobState, acts: Seq<JobAction>)
    requires
        s.stage == JobStage::Persisting,
        s.track is Some,
        job_transition(s, JobEvent::Persisted, n, acts),
    ensures
        acts.len() == 2,
        acts[1] matches JobAction::WriteTags(plan) && plan.embed_cover == s.has_cover,
{
}

impl JobState {
    /// A job for one track of `collection`, about to fetch the track's
    /// metadata.
    pub fn new(task_id: u128, collection_id: String, output_dir: String, collection: TrackCollection) -> (r: Self)
        ensures
            r.stage == JobStage::FetchingMetadata,
            r.task_id == task_id,
            r.collection_id == collection_id,
            r.output_dir == output_dir,
            r.collection == collection,
            r.track is None,
            !r.has_cover,
            r.format is None,
    {
        JobState {
            stage: JobStage::FetchingMetadata,
            task_id,
            collection_id,
            output_dir,
            collection,
            track: None,
            has_cover: false,
            format: None,
        }
    }
}

fn emit(s: &JobState, msg: &str, info: Option<TrackInfo>) -> (a: JobAction)
    ensures
        emits(a, *s, msg@, match info { Some(i) => Some(i@), None => None }),
{
    JobAction::Emit(ProgressUpdate {
        task_id: s.task_id,
        collection_id: s.collection_id.clone(),
        status: TaskStatus::Running,
        message: Some(owned(msg)),
        track_info: info,
    })
}

fn info_from(t: &Track) -> (i: TrackInfo)
    ensures
        i@ == info_of(*t),
{
    TrackInfo {
        title: t.title.clone(),
        artists: crate::container::copy_strings(&t.artists),
        number: t.number,
        disc_number: t.disc_number,
        duration_ms: t.duration_ms,
    }
}

fn finish_err(e: String) -> (a: JobAction)
    ensures
        finishes_err(a, e@),
{
    JobAction::Finish(Err(e))
}

fn finish_ok(msg: &str) -> (a: JobAction)
    ensures
        finishes_ok(a, msg@),
{
    JobAction::Finish(Ok(Some(owned(msg))))
}

fn download_step(s: JobState, has: bool) -> (r: (JobState, Vec<JobAction>))
    requires
        s.track is Some,
    ensures
        r.0 == (JobState { stage: JobStage::Downloading, has_cover: has, ..s }),
        r.1@.len() == 2,
        emits(r.1@[0], s, "Downloading audio…"@, None),
        r.1@[1] matches JobAction::Download { dir }
            && dir@ == pushed_path(seq![s.output_dir@, artist_dir_text(s.track->0), album_dir_text(s.collection)]),
{
    let mut acts: Vec<JobAction> = Vec::new();
    acts.push(emit(&s, "Downloading audio…", None));
    let dir = match &s.track {
        Some(t) => build_output_dir(s.output_dir.as_str(), t, &s.collection),
        None => owned(""),
    };
    acts.push(JobAction::Download { dir });
    (JobState { stage: JobStage::Downloading, has_cover: has, ..s }, acts)
}

/// The job's next state and actions after event `event` at state `state`;
/// see [`job_transition`].
pub fn job_step(state: JobState, event: JobEvent) -> (r: (JobState, Vec<JobAction>))
    ensures
        job_transition(state, event, r.0, r.1@),
{
    match (state.stage, event) {
        (JobStage::FetchingMetadata, JobEvent::Metadata(t)) => {
            let mut acts: Vec<JobAction> = Vec::new();
            acts.push(emit(&state, "Running…", Some(info_from(&t))));
            let stem = build_output_stem(state.output_dir.as_str(), &t, &state.collection);
            acts.push(JobAction::LookForExisting { stem });
            (JobState { stage: JobStage::CheckingExisting, track: Some(t), ..state }, acts)
        },
        (JobStage::FetchingMetadata, JobEvent::MetadataFailed(err)) => {
            let acts = vec![finish_err(err)];
            (JobState { stage: JobStage::Finished, ..state }, acts)
        },
        (JobStage::CheckingExisting, JobEvent::ExistingFound) => {
            let acts = vec![finish_ok("File already exists")];
            (JobState { stage: JobStage::Finished, ..state }, acts)
        },
        (JobStage::CheckingExisting, JobEvent::NoExisting) => {
            if state.track.is_none() {
                return (state, Vec::new());
            }
            let mut acts: Vec<JobAction> = Vec::new();
            acts.push(emit(&state, "Fetching cover art…", None));
            let cover_id = match &state.track {
                Some(t) => match &t.cover_id {
                    Some(c) => c.clone(),
                    None => owned(""),
                },
                None => owned(""),
            };
            proof {
                reveal_strlit("");
                assert(""@ == Seq::<char>::empty());
                assert(cover_id@ == cover_id_text(state.track->0));
            }
            acts.push(JobAction::FetchCover { cover_id });
            (JobState { stage: JobStage::FetchingCover, ..state }, acts)
        },
        (JobStage::FetchingCover, JobEvent::Cover(has)) => {
            if state.track.is_none() {
                return (state, Vec::new());
            }
            download_step(state, has)
        },
        (JobStage::FetchingCover, JobEvent::CoverFailed) => {
            if state.track.is_none() {
                return (state, Vec::new());
            }
            download_step(state, false)
        },
        (JobStage::Downloading, JobEvent::Downloaded(f)) => {
            let path = match &state.track {
                Some(t) => build_output_path(state.output_dir.as_str(), t, &state.collection, f),
                None => {
                    return (state, Vec::new());
                },
            };
            let acts = vec![JobAction::Persist { path }];
            (JobState { stage: JobStage::Persisting, format: Some(f), ..state }, acts)
        },
        (JobStage::Downloading, JobEvent::DownloadFailed(err)) => {
            let acts = vec![finish_err(err)];
            (JobState { stage: JobStage::Finished, ..state }, acts)
        },
        (JobStage::Persisting, JobEvent::Persisted) => {
            let plan = match &state.track {
                Some(t) => plan_tags(t, &state.collection, state.has_cover),
                None => {
                    return (state, Vec::new());
                },
            };
            let mut acts: Vec<JobAction> = Vec::new();
            acts.push(emit(&state, "Writing tags…", None));
            acts.push(JobAction::WriteTags(plan));
            (JobState { stage: JobStage::Tagging, ..state }, acts)
        },
        (JobStage::Persisting, JobEvent::PersistFailed(err)) => {
            let acts = vec![finish_err(err)];
            (JobState { stage: JobStage::Finished, ..state }, acts)
        },
        (JobStage::Tagging, JobEvent::TagsWritten(_)) => {
            let acts = vec![finish_ok("Downloaded")];
            (JobState { stage: JobStage::Finished, ..state }, acts)
        },
        _ => (state, Vec::new()),
    }
}

} // verus!
