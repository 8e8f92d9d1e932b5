//! Progress messages exchanged between the download worker and its
//! observers, and the decisions the worker takes on each job's outcome.

use vstd::prelude::*;
use crate::container::{copy_strings, TrackCollection};
use crate::queue::{fresh_id, random_uuid, InMemoryStorage, QueueEntry};
use crate::text::{owned, push_str_chars, string_from_chars};
use crate::status::TaskStatus;

verus! {

/// Track metadata resolved during download, sent with the first `Running`
/// update.
#[derive(Debug)]
pub struct TrackInfo {
    pub title: String,
    pub artists: Vec<String>,
    pub number: Option<i32>,
    pub disc_number: Option<i32>,
    pub duration_ms: i32,
}

/// The abstract value of a [`TrackInfo`].
pub struct TrackInfoView {
    pub title: String,
    pub artists: Seq<String>,
    pub number: Option<i32>,
    pub disc_number: Option<i32>,
    pub duration_ms: i32,
}

impl View for TrackInfo {
    type V = TrackInfoView;

    open spec fn view(&self) -> TrackInfoView {
        TrackInfoView {
            title: self.title,
            artists: self.artists@,
            number: self.number,
            disc_number: self.disc_number,
            duration_ms: self.duration_ms,
        }
    }
}

impl Clone for TrackInfo {
    fn clone(&self) -> (r: Self)
        ensures
            r@ == self@,
    {
        TrackInfo {
            title: self.title.clone(),
            artists: copy_strings(&self.artists),
            number: self.number,
            disc_number: self.disc_number,
            duration_ms: self.duration_ms,
        }
    }
}

/// The view of an optional [`TrackInfo`].
pub open spec fn opt_info_view(o: Option<TrackInfo>) -> Option<TrackInfoView> {
    match o {
        Some(t) => Some(t@),
        None => None,
    }
}

/// A copy of an optional [`TrackInfo`].
pub fn copy_opt_info(o: &Option<TrackInfo>) -> (r: Option<TrackInfo>)
    ensures
        opt_info_view(r) == opt_info_view(*o),
{
    match o {
        Some(t) => Some(t.clone()),
        None => None,
    }
}

/// A progress message: which task, which collection, its status, an optional
/// human-readable message and, once known, the track's metadata.
#[derive(Debug)]
pub struct ProgressUpdate {
    pub task_id: u128,
    pub collection_id: String,
    pub status: TaskStatus,
    pub message: Option<String>,
    pub track_info: Option<TrackInfo>,
}

/// How a job ended.
#[derive(Debug)]
pub enum JobOutcome {
    /// The runner finished, with an optional closing message.
    Finished(Option<String>),
    /// The runner returned an error.
    Failed(String),
    /// The runner's thread panicked.
    Panicked(String),
}

/// The update sent when a job starts: `Running` with the message
/// `Running…`.
pub fn running_update(task_id: u128, collection_id: &str) -> (r: ProgressUpdate)
    ensures
        r.task_id == task_id,
        r.collection_id@ == collection_id@,
        r.status is Running,
        r.message matches Some(m) && m@ == "Running…"@,
        r.track_info is None,
{
    ProgressUpdate {
        task_id,
        collection_id: owned(collection_id),
        status: TaskStatus::Running,
        message: Some(owned("Running…")),
        track_info: None,
    }
}

/// The status a job ends in: `Done` when it finished, else `Failed` with
/// the error, prefixed by `worker panic: ` when the thread panicked.
pub open spec fn final_status_is(outcome: JobOutcome, s: TaskStatus) -> bool {
    match outcome {
        JobOutcome::Finished(_) => s is Done,
        JobOutcome::Failed(e) => s matches TaskStatus::Failed { reason } && reason@ == e@,
        JobOutcome::Panicked(e) => s matches TaskStatus::Failed { reason } && reason@ == "worker panic: "@ + e@,
    }
}

/// The update sent when a job ends: its final status, and the runner's
/// closing message when it finished.
pub fn final_update(task_id: u128, collection_id: &str, outcome: JobOutcome) -> (r: ProgressUpdate)
    ensures
        r.task_id == task_id,
        r.collection_id@ == collection_id@,
        final_status_is(outcome, r.status),
        r.message == (match outcome {
            JobOutcome::Finished(m) => m,
            _ => None,
        }),
        r.track_info is None,
{
    let ghost o = outcome;
    let (status, message) = match outcome {
        JobOutcome::Finished(m) => (TaskStatus::Done, m),
        JobOutcome::Failed(e) => (TaskStatus::Failed { reason: e }, None),
        JobOutcome::Panicked(e) => {
            let mut v: Vec<char> = Vec::new();
            push_str_chars(&mut v, "worker panic: ");
            push_str_chars(&mut v, e.as_str());
            (TaskStatus::Failed { reason: string_from_chars(v.as_slice()) }, None)
        },
    };
    ProgressUpdate { task_id, collection_id: owned(collection_id), status, message, track_info: None }
}

/// The queue entries made for a collection: one per track URI, in order.
pub open spec fn entries_for(entries: Seq<QueueEntry>, c: TrackCollection) -> bool {
    &&& entries.len() == c.track_uris@.len()
    &&& forall|i: int| 0 <= i < entries.len() ==> (#[trigger] entries[i]).track_uri@ == c.track_uris@[i]@
        && entries[i].collection@ == c@
}

/// The waiting side of the download pipeline: collections fanned out into
/// one task per track, handed to the worker one at a time, first in first
/// out.
pub struct DownloadCoordinator {
    queue: InMemoryStorage,
}

impl View for DownloadCoordinator {
    type V = Seq<QueueEntry>;

    closed spec fn view(&self) -> Seq<QueueEntry> {
        self.queue@
    }
}

impl DownloadCoordinator {
    /// A coordinator with nothing queued.
    pub fn new() -> (r: Self)
        ensures
            r@ == Seq::<QueueEntry>::empty(),
    {
        DownloadCoordinator { queue: InMemoryStorage::new() }
    }

    /// Queues one task per track URI of the collection, in order. Returns a
    /// fresh random collection id and, per queued task in the same order, a
    /// pair of a fresh random track id and the task's id. Task ids are random
    /// draws too; a draw that repeats an earlier task id of the collection is
    /// replaced by the smallest unused value, so no two tasks share one.
    pub fn add_collection(&mut self, collection: &TrackCollection) -> (r: (u128, Vec<(u128, u128)>))
        ensures
            final(self)@.len() == old(self)@.len() + collection.track_uris@.len(),
            final(self)@.take(old(self)@.len() as int) == old(self)@,
            entries_for(final(self)@.skip(old(self)@.len() as int), *collection),
            r.1@.len() == collection.track_uris@.len(),
            forall|i: int| 0 <= i < r.1@.len() ==> r.1@[i].1 == #[trigger] final(self)@[old(self)@.len() + i].task_id,
            forall|i: int, j: int| 0 <= i < j < r.1@.len() ==> r.1@[i].1 != r.1@[j].1,
    {
        let collection_id = random_uuid();
        let ghost start = self@;
        let mut ids: Vec<u128> = Vec::new();
        let mut pairs: Vec<(u128, u128)> = Vec::new();
        let mut i: usize = 0;
        while i < collection.track_uris.len()
            invariant
                pairs@.len() == i,
                forall|k: int| 0 <= k < i ==> (#[trigger] pairs@[k]).1 == ids@[k],
                i <= collection.track_uris.len(),
                self@.len() == start.len() + i,
                self@.take(start.len() as int) == start,
                ids@.len() == i,
                forall|k: int| 0 <= k < i ==> (#[trigger] self@[start.len() + k]).track_uri@ == collection.track_uris@[k]@
                    && self@[start.len() + k].collection@ == collection@,
                forall|k: int| 0 <= k < i ==> ids@[k] == #[trigger] self@[start.len() + k].task_id,
                forall|a: int, b: int| 0 <= a < b < ids@.len() ==> ids@[a] != ids@[b],
            decreases collection.track_uris.len() - i,
        {
            let id = fresh_id(&ids, random_uuid());
            let entry = QueueEntry { task_id: id, track_uri: collection.track_uris[i].clone(), collection: collection.clone() };
            let ghost prev = ids@;
            ids.push(id);
            pairs.push((random_uuid(), id));
            assert forall|a: int, b: int| 0 <= a < b < ids@.len() implies ids@[a] != ids@[b] by {
                if b == prev.len() {
                    assert(prev.contains(prev[a]));
                } else {
                    assert(ids@[a] == prev[a] && ids@[b] == prev[b]);
                }
            }
            let ghost before = self@;
            self.queue.push(entry);
            assert(self@ == before.push(entry));
            assert(self@.take(start.len() as int) =~= start) by {
                assert(before.take(start.len() as int) == start);
            }
            i = i + 1;
        }
        let ghost added = self@.skip(start.len() as int);
        assert forall|k: int| 0 <= k < added.len() implies (#[trigger] added[k]).track_uri@ == collection.track_uris@[k]@
            && added[k].collection@ == collection@ by {
            assert(added[k] == self@[start.len() + k]);
        }
        (collection_id, pairs)
    }

    /// Queues one prepared entry at the back (used to re-queue recovered
    /// tasks).
    pub fn enqueue(&mut self, entry: QueueEntry)
        ensures
            final(self)@ == old(self)@.push(entry),
    {
        self.queue.push(entry);
    }

    /// The next task for the worker, taken from the front of the queue.
    pub fn next_job(&mut self) -> (r: Option<QueueEntry>)
        ensures
            old(self)@.len() == 0 ==> r is None && final(self)@ == old(self)@,
            old(self)@.len() > 0 ==> r == Some(old(self)@[0]) && final(self)@ == old(self)@.drop_first(),
    {
        self.queue.pop()
    }

    /// Number of tasks waiting.
    pub fn len(&self) -> (n: usize)
        ensures
            n == self@.len(),
    {
        self.queue.len()
    }

    /// No task is waiting.
    pub fn is_empty(&self) -> (b: bool)
        ensures
            b == (self@.len() == 0),
    {
        self.queue.is_empty()
    }
}

/// Waits for a batch of tasks: counts the final updates (`Done` or
/// `Failed`) of the batch's own tasks.
pub struct BatchTracker {
    ids: Vec<u128>,
    finished: usize,
}

impl BatchTracker {
    /// The task ids of the batch.
    pub closed spec fn task_ids(&self) -> Seq<u128> {
        self.ids@
    }

    /// Final updates counted so far.
    pub closed spec fn finished_count(&self) -> nat {
        self.finished as nat
    }

    /// A tracker for the tasks `ids`, none finished yet.
    pub fn new(ids: Vec<u128>) -> (r: Self)
        ensures
            r.task_ids() == ids@,
            r.finished_count() == 0,
    {
        BatchTracker { ids, finished: 0 }
    }

    /// Number of tasks in the batch.
    pub fn total(&self) -> (n: usize)
        ensures
            n == self.task_ids().len(),
    {
        self.ids.len()
    }

    /// Number of final updates counted.
    pub fn finished(&self) -> (n: usize)
        ensures
            n == self.finished_count(),
    {
        self.finished
    }

    /// Takes note of an update. Returns whether the batch is now complete:
    /// the update belongs to the batch and the final updates counted reach
    /// the number of tasks.
    pub fn record(&mut self, task_id: u128, status: &TaskStatus) -> (r: bool)
        requires
            old(self).finished_count() < usize::MAX,
        ensures
            final(self).task_ids() == old(self).task_ids(),
            final(self).finished_count() == old(self).finished_count()
                + (if old(self).task_ids().contains(task_id) && status.is_finished() { 1nat } else { 0nat }),
            r == (old(self).task_ids().contains(task_id) && final(self).finished_count() == old(self).task_ids().len()),
    {
        let mut ours = false;
        let mut i: usize = 0;
        while i < self.ids.len()
            invariant
                i <= self.ids@.len(),
                ours == exists|j: int| 0 <= j < i && self.ids@[j] == task_id,
            decreases self.ids@.len() - i,
        {
            if self.ids[i] == task_id {
                ours = true;
            }
            i = i + 1;
        }
        if !ours {
            return false;
        }
        if status.has_finished() {
            self.finished = self.finished + 1;
        }
        self.finished == self.ids.len()
    }
}

} // verus!
