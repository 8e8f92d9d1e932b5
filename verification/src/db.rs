//! How tasks and collections are written to and read from the database:
//! the stored spelling of collection kinds, and the status and progress of
//! a collection summed up from the stored statuses of its tasks.

use vstd::prelude::*;
use crate::container::{CollectionType, TrackCollection};
use crate::queue::QueueEntry;
use crate::text::{chars_of, owned, starts_with_chars};
use crate::uri::string_views;

verus! {

/// One collection as listed by the API, with its status summed up from its
/// tasks.
#[derive(Debug)]
pub struct CollectionRow {
    pub id: String,
    pub uri: String,
    pub collection_type: String,
    pub title: String,
    pub artists: Vec<String>,
    pub cover_id: Option<String>,
    pub date: Option<String>,
    pub total_tracks: usize,
    /// `running`, `done`, `failed` or `pending`.
    pub status: String,
    /// Percentage of tasks that are done (0–100).
    pub progress: u32,
    pub registered_at: String,
}

/// One track of a collection with its task's status.
#[derive(Debug)]
pub struct TrackRow {
    pub id: String,
    pub uri: String,
    pub title: Option<String>,
    pub artists: Option<Vec<String>>,
    pub number: Option<i32>,
    pub disc_number: Option<i32>,
    pub duration_ms: Option<i32>,
    pub task_id: String,
    pub status: String,
    pub message: Option<String>,
}

/// What is needed to re-queue an interrupted task.
#[derive(Debug)]
pub struct RecoveredEntry {
    pub task_id: u128,
    pub track_uri: String,
    pub collection: TrackCollection,
}

impl RecoveredEntry {
    /// Turns the recovered task into a queue entry.
    pub fn into_queue_entry(self) -> (r: QueueEntry)
        ensures
            r.task_id == self.task_id,
            r.track_uri == self.track_uri,
            r.collection == self.collection,
    {
        QueueEntry { task_id: self.task_id, track_uri: self.track_uri, collection: self.collection }
    }
}

/// The stored name of a collection kind.
pub open spec fn collection_type_text(ct: CollectionType) -> Seq<char> {
    match ct {
        CollectionType::Album => "album"@,
        CollectionType::Playlist => "playlist"@,
        CollectionType::Show => "show"@,
        CollectionType::SingleTrack => "single_track"@,
        CollectionType::SingleEpisode => "single_episode"@,
    }
}

/// The collection kind a stored name reads as; unknown names read as
/// `Album`.
pub open spec fn collection_type_from_text(s: Seq<char>) -> CollectionType {
    if s == "album"@ {
        CollectionType::Album
    } else if s == "playlist"@ {
        CollectionType::Playlist
    } else if s == "show"@ {
        CollectionType::Show
    } else if s == "single_track"@ {
        CollectionType::SingleTrack
    } else if s == "single_episode"@ {
        CollectionType::SingleEpisode
    } else {
        CollectionType::Album
    }
}

/// The stored name of a collection kind.
pub fn collection_type_to_str(ct: &CollectionType) -> (r: &'static str)
    ensures
        r@ == collection_type_text(*ct),
{
    match ct {
        CollectionType::Album => "album",
        CollectionType::Playlist => "playlist",
        CollectionType::Show => "show",
        CollectionType::SingleTrack => "single_track",
        CollectionType::SingleEpisode => "single_episode",
    }
}

/// Reads a stored collection kind; an unknown name reads as `Album`.
pub fn str_to_collection_type(s: &str) -> (r: CollectionType)
    ensures
        r == collection_type_from_text(s@),
{
    let o = owned(s);
    if o == owned("album") {
        CollectionType::Album
    } else if o == owned("playlist") {
        CollectionType::Playlist
    } else if o == owned("show") {
        CollectionType::Show
    } else if o == owned("single_track") {
        CollectionType::SingleTrack
    } else if o == owned("single_episode") {
        CollectionType::SingleEpisode
    } else {
        CollectionType::Album
    }
}

/// Storing a collection kind and reading it back gives the same kind.
pub proof fn law_collection_type_round_trip(ct: CollectionType)
    ensures
        collection_type_from_text(collection_type_text(ct)) == ct,
{
    reveal_strlit("album");
    reveal_strlit("playlist");
    reveal_strlit("show");
    reveal_strlit("single_track");
    reveal_strlit("single_episode");
    assert("album"@.len() == 5 && "playlist"@.len() == 8 && "show"@.len() == 4);
    assert("single_track"@.len() == 12 && "single_episode"@.len() == 14);
    assert("single_episode"@ != "album"@ && "single_episode"@ != "playlist"@ && "single_episode"@ != "show"@);
    assert("single_episode"@[7] != "single_track"@[7]);
}

/// A stored status counts as done.
pub open spec fn done_text(t: Seq<char>) -> bool {
    t == "done"@
}

/// A stored status counts as active: running or retrying.
pub open spec fn active_text(t: Seq<char>) -> bool {
    t == "running"@ || t == "retrying"@
}

/// A stored status counts as failed: it starts with `failed:`.
pub open spec fn failed_text(t: Seq<char>) -> bool {
    "failed:"@.is_prefix_of(t)
}

/// How many of the stored statuses satisfy `p`.
pub open spec fn count_where(s: Seq<Seq<char>>, p: spec_fn(Seq<char>) -> bool) -> nat
    decreases s.len(),
{
    if s.len() == 0 {
        0
    } else {
        count_where(s.drop_last(), p) + if p(s.last()) { 1nat } else { 0nat }
    }
}

proof fn lemma_count_where_bound(s: Seq<Seq<char>>, p: spec_fn(Seq<char>) -> bool)
    ensures
        count_where(s, p) <= s.len(),
    decreases s.len(),
{
    if s.len() > 0 {
        lemma_count_where_bound(s.drop_last(), p);
    }
}

/// The task counts of a collection by status.
#[derive(Debug)]
pub struct StatusCounts {
    pub tasks: u64,
    pub done: u64,
    pub active: u64,
    pub failed: u64,
}

/// The counts of a list of stored statuses.
pub open spec fn counts_of(s: Seq<Seq<char>>) -> (nat, nat, nat, nat) {
    (s.len(), count_where(s, |t: Seq<char>| done_text(t)), count_where(s, |t: Seq<char>| active_text(t)),
        count_where(s, |t: Seq<char>| failed_text(t)))
}

/// Counts the stored statuses of a collection's tasks: all, done, active
/// (running or retrying) and failed.
pub fn count_statuses(statuses: &Vec<String>) -> (r: StatusCounts)
    ensures
        (r.tasks as nat, r.done as nat, r.active as nat, r.failed as nat) == counts_of(string_views(statuses@)),
        r.done <= r.tasks,
        r.active <= r.tasks,
        r.failed <= r.tasks,
{
    let ghost s = string_views(statuses@);
    let done_w = chars_of("done");
    let running_w = chars_of("running");
    let retrying_w = chars_of("retrying");
    let failed_p = chars_of("failed:");
    let mut done: u64 = 0;
    let mut active: u64 = 0;
    let mut failed: u64 = 0;
    let mut i: usize = 0;
    while i < statuses.len()
        invariant
            i <= statuses.len(),
            s == string_views(statuses@),
            done_w@ == "done"@,
            running_w@ == "running"@,
            retrying_w@ == "retrying"@,
            failed_p@ == "failed:"@,
            done == count_where(s.take(i as int), |t: Seq<char>| done_text(t)),
            active == count_where(s.take(i as int), |t: Seq<char>| active_text(t)),
            failed == count_where(s.take(i as int), |t: Seq<char>| failed_text(t)),
        decreases statuses.len() - i,
    {
        let ghost t = s.take(i + 1);
        assert(t.drop_last() == s.take(i as int));
        assert(t.last() == statuses@[i as int]@);
        proof {
            lemma_count_where_bound(s.take(i as int), |t: Seq<char>| done_text(t));
            lemma_count_where_bound(s.take(i as int), |t: Seq<char>| active_text(t));
            lemma_count_where_bound(s.take(i as int), |t: Seq<char>| failed_text(t));
        }
        let v = chars_of(statuses[i].as_str());
        if crate::text::same_chars(&v, &done_w) {
            done = done + 1;
        }
        if crate::text::same_chars(&v, &running_w) || crate::text::same_chars(&v, &retrying_w) {
            active = active + 1;
        }
        if starts_with_chars(&v, &failed_p) {
            failed = failed + 1;
        }
        i = i + 1;
    }
    assert(s.take(statuses.len() as int) == s);
    proof {
        lemma_count_where_bound(s, |t: Seq<char>| done_text(t));
        lemma_count_where_bound(s, |t: Seq<char>| active_text(t));
        lemma_count_where_bound(s, |t: Seq<char>| failed_text(t));
    }
    StatusCounts { tasks: statuses.len() as u64, done, active, failed }
}

/// A collection's status from its task counts: `running` while any task is
/// active, `done` once every task is done, `failed` when some task failed,
/// else `pending`.
pub open spec fn aggregate_text(tasks: nat, done: nat, active: nat, failed: nat) -> Seq<char> {
    if active > 0 {
        "running"@
    } else if tasks > 0 && done == tasks {
        "done"@
    } else if failed > 0 {
        "failed"@
    } else {
        "pending"@
    }
}

/// A collection is reported `done` only when every one of its tasks is
/// done, and its progress never exceeds 100%.
pub proof fn law_done_means_all_done(s: Seq<Seq<char>>)
    ensures
        aggregate_text(counts_of(s).0, counts_of(s).1, counts_of(s).2, counts_of(s).3) == "done"@
            ==> counts_of(s).1 == s.len() && s.len() > 0,
        progress_of(counts_of(s).0, counts_of(s).1) <= 100,
{
    reveal_strlit("done");
    reveal_strlit("running");
    reveal_strlit("failed");
    reveal_strlit("pending");
    lemma_count_where_bound(s, |t: Seq<char>| done_text(t));
    let tasks = counts_of(s).0;
    let done = counts_of(s).1;
    if tasks > 0 {
        assert(done * 100 / tasks <= 100) by (nonlinear_arith)
            requires
                done <= tasks,
                tasks > 0,
        ;
    }
    assert("running"@.len() == 7 && "done"@.len() == 4 && "failed"@.len() == 6 && "pending"@.len() == 7);
}

proof fn lemma_count_where_some(s: Seq<Seq<char>>, p: spec_fn(Seq<char>) -> bool)
    ensures
        count_where(s, p) > 0 <==> exists|i: int| 0 <= i < s.len() && #[trigger] p(s[i]),
        count_where(s, p) == s.len() <==> forall|i: int| 0 <= i < s.len() ==> #[trigger] p(s[i]),
    decreases s.len(),
{
    lemma_count_where_bound(s, p);
    if s.len() > 0 {
        let d = s.drop_last();
        lemma_count_where_some(d, p);
        lemma_count_where_bound(d, p);
        if exists|i: int| 0 <= i < d.len() && #[trigger] p(d[i]) {
            let i = choose|i: int| 0 <= i < d.len() && #[trigger] p(d[i]);
            assert(p(s[i]));
        }
        if exists|i: int| 0 <= i < s.len() && #[trigger] p(s[i]) {
            let i = choose|i: int| 0 <= i < s.len() && #[trigger] p(s[i]);
            if i < d.len() {
                assert(p(d[i]));
            }
        }
        if forall|i: int| 0 <= i < s.len() ==> #[trigger] p(s[i]) {
            assert forall|i: int| 0 <= i < d.len() implies #[trigger] p(d[i]) by {
                assert(p(s[i]));
            }
            assert(p(s[s.len() - 1]));
        }
        if count_where(s, p) == s.len() {
            assert forall|i: int| 0 <= i < s.len() implies #[trigger] p(s[i]) by {
                if i < d.len() {
                    assert(p(d[i]));
                }
            }
        }
    }
}

/// A collection's status from the stored statuses of its tasks: `running`
/// when some task is running or retrying; otherwise `done` when it has
/// tasks and every one is done; otherwise `failed` when some task failed;
/// otherwise `pending`.
pub proof fn law_collection_status(s: Seq<Seq<char>>)
    ensures
        (exists|i: int| 0 <= i < s.len() && active_text(#[trigger] s[i]))
            ==> aggregate_text(counts_of(s).0, counts_of(s).1, counts_of(s).2, counts_of(s).3) == "running"@,
        (forall|i: int| 0 <= i < s.len() ==> !active_text(#[trigger] s[i]))
            && s.len() > 0 && (forall|i: int| 0 <= i < s.len() ==> done_text(#[trigger] s[i]))
            ==> aggregate_text(counts_of(s).0, counts_of(s).1, counts_of(s).2, counts_of(s).3) == "done"@,
        (forall|i: int| 0 <= i < s.len() ==> !active_text(#[trigger] s[i]))
            && (exists|i: int| 0 <= i < s.len() && failed_text(#[trigger] s[i]))
            ==> aggregate_text(counts_of(s).0, counts_of(s).1, counts_of(s).2, counts_of(s).3) == "failed"@,
        (forall|i: int| 0 <= i < s.len() ==> !active_text(#[trigger] s[i]) && !failed_text(s[i]))
            && !(s.len() > 0 && (forall|i: int| 0 <= i < s.len() ==> done_text(#[trigger] s[i])))
            ==> aggregate_text(counts_of(s).0, counts_of(s).1, counts_of(s).2, counts_of(s).3) == "pending"@,
{
    reveal_strlit("done");
    reveal_strlit("failed:");
    let pd = |t: Seq<char>| done_text(t);
    let pa = |t: Seq<char>| active_text(t);
    let pf = |t: Seq<char>| failed_text(t);
    lemma_count_where_some(s, pd);
    lemma_count_where_some(s, pa);
    lemma_count_where_some(s, pf);
    if exists|i: int| 0 <= i < s.len() && failed_text(#[trigger] s[i]) {
        let i = choose|i: int| 0 <= i < s.len() && failed_text(#[trigger] s[i]);
        assert(pf(s[i]));
        assert(!done_text(s[i])) by {
            if s[i] == "done"@ {
                assert(s[i][0] == "failed:"@[0]);
            }
        }
        assert(!pd(s[i]));
    }
    if exists|i: int| 0 <= i < s.len() && active_text(#[trigger] s[i]) {
        let i = choose|i: int| 0 <= i < s.len() && active_text(#[trigger] s[i]);
        assert(pa(s[i]));
    }
    if forall|i: int| 0 <= i < s.len() ==> !active_text(#[trigger] s[i]) {
        assert forall|i: int| 0 <= i < s.len() implies !#[trigger] pa(s[i]) by {
            assert(!active_text(s[i]));
        }
    }
    if forall|i: int| 0 <= i < s.len() ==> done_text(#[trigger] s[i]) {
        assert forall|i: int| 0 <= i < s.len() implies #[trigger] pd(s[i]) by {
            assert(done_text(s[i]));
        }
    }
    if forall|i: int| 0 <= i < s.len() ==> !active_text(#[trigger] s[i]) && !failed_text(s[i]) {
        assert forall|i: int| 0 <= i < s.len() implies !#[trigger] pf(s[i]) by {
            assert(!failed_text(s[i]));
        }
        assert forall|i: int| 0 <= i < s.len() implies !#[trigger] pa(s[i]) by {
            assert(!active_text(s[i]));
        }
    }
    if count_where(s, pd) == s.len() {
        assert forall|i: int| 0 <= i < s.len() implies done_text(#[trigger] s[i]) by {
            assert(pd(s[i]));
        }
    }
}

/// A collection's progress: the percentage of its tasks that are done,
/// rounded down; 0 without tasks.
pub open spec fn progress_of(tasks: nat, done: nat) -> nat {
    if tasks > 0 {
        done * 100 / tasks
    } else {
        0
    }
}

/// A collection's progress is the share of done tasks in whole percent,
/// rounded down: `p` percent of the tasks is no more than the done ones, and
/// `p + 1` percent would be more. It reaches 100 exactly when every task is
/// done, and more done tasks never lower it. Without tasks it is 0.
pub proof fn law_progress_is_floor_percentage(tasks: nat, done: nat, more: nat)
    requires
        done <= more <= tasks,
    ensures
        tasks > 0 ==> progress_of(tasks, done) * tasks <= done * 100 < (progress_of(tasks, done) + 1) * tasks,
        tasks > 0 ==> (progress_of(tasks, done) == 100 <==> done == tasks),
        progress_of(tasks, done) <= progress_of(tasks, more),
        tasks == 0 ==> progress_of(tasks, done) == 0,
{
    if tasks > 0 {
        let p = done * 100 / tasks;
        assert(p * tasks <= done * 100 < (p + 1) * tasks) by (nonlinear_arith)
            requires
                tasks > 0,
                p == done * 100 / tasks,
        ;
        assert(done * 100 / tasks <= more * 100 / tasks) by (nonlinear_arith)
            requires
                tasks > 0,
                done <= more,
        ;
        if done == tasks {
            assert(done * 100 / tasks == 100) by (nonlinear_arith)
                requires
                    tasks > 0,
                    done == tasks,
            ;
        } else {
            assert(done * 100 / tasks < 100) by (nonlinear_arith)
                requires
                    tasks > 0,
                    done < tasks,
            ;
        }
    }
}

impl StatusCounts {
    /// The collection's status from these counts.
    pub fn status(&self) -> (r: &'static str)
        ensures
            r@ == aggregate_text(self.tasks as nat, self.done as nat, self.active as nat, self.failed as nat),
    {
        if self.active > 0 {
            "running"
        } else if self.tasks > 0 && self.done == self.tasks {
            "done"
        } else if self.failed > 0 {
            "failed"
        } else {
            "pending"
        }
    }

    /// The percentage of tasks done.
    pub fn progress(&self) -> (r: u32)
        requires
            self.done <= self.tasks,
        ensures
            r == progress_of(self.tasks as nat, self.done as nat),
    {
        if self.tasks > 0 {
            let scaled: u128 = (self.done as u128) * 100;
            let p: u128 = scaled / (self.tasks as u128);
            let ghost d = self.done as int;
            let ghost t = self.tasks as int;
            assert(p <= 100) by (nonlinear_arith)
                requires
                    scaled == d * 100,
                    p as int == (scaled as int) / t,
                    d <= t,
                    t > 0,
            ;
            p as u32
        } else {
            0
        }
    }
}

/// Every task of the collection is done or failed.
pub open spec fn complete(s: Seq<Seq<char>>) -> bool {
    forall|i: int| 0 <= i < s.len() ==> done_text(#[trigger] s[i]) || failed_text(s[i])
}

/// Whether a collection is complete, from the stored statuses of its tasks.
pub fn is_complete(statuses: &Vec<String>) -> (r: bool)
    ensures
        r == complete(string_views(statuses@)),
{
    let done_w = chars_of("done");
    let failed_p = chars_of("failed:");
    let mut i: usize = 0;
    while i < statuses.len()
        invariant
            i <= statuses.len(),
            done_w@ == "done"@,
            failed_p@ == "failed:"@,
            forall|j: int| 0 <= j < i ==> done_text(#[trigger] string_views(statuses@)[j])
                || failed_text(string_views(statuses@)[j]),
        decreases statuses.len() - i,
    {
        let v = chars_of(statuses[i].as_str());
        assert(string_views(statuses@)[i as int] == v@);
        if !crate::text::same_chars(&v, &done_w) && !starts_with_chars(&v, &failed_p) {
            return false;
        }
        i = i + 1;
    }
    true
}

} // verus!
