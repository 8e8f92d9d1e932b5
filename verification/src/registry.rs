//! The task registry: every task's status across its lifecycle, at most one
//! record per track URI, with crash recovery and pruning of old finished
//! tasks. Records are kept ordered by task id, the order in which the
//! persistent store keys them.

use vstd::prelude::*;
use crate::container::{CollectionView, TrackCollection};
use crate::coordinator::{copy_opt_info, opt_info_view, ProgressUpdate, TrackInfo, TrackInfoView};
use crate::container::copy_opt_string;
use crate::queue::{QueueEntry, QueueEntryView};
use crate::status::TaskStatus;
use crate::clock::unix_millis_now;

verus! {

/// Most records the registry keeps before it prunes old finished tasks.
pub const MAX_REGISTRY_ENTRIES: usize = 1000;

/// Point-in-time view of one registered task.
#[derive(Debug)]
pub struct TaskSnapshot {
    pub task_id: u128,
    pub track_uri: String,
    pub collection: TrackCollection,
    pub status: TaskStatus,
    pub message: Option<String>,
    pub track_info: Option<TrackInfo>,
    /// Unix epoch milliseconds at which the task was registered.
    pub registered_at: u64,
}

/// The abstract value of a [`TaskSnapshot`].
pub struct SnapshotView {
    pub task_id: u128,
    pub track_uri: String,
    pub collection: CollectionView,
    pub status: TaskStatus,
    pub message: Option<String>,
    pub track_info: Option<TrackInfoView>,
    pub registered_at: u64,
}

impl View for TaskSnapshot {
    type V = SnapshotView;

    open spec fn view(&self) -> SnapshotView {
        SnapshotView {
            task_id: self.task_id,
            track_uri: self.track_uri,
            collection: self.collection@,
            status: self.status,
            message: self.message,
            track_info: opt_info_view(self.track_info),
            registered_at: self.registered_at,
        }
    }
}

impl Clone for TaskSnapshot {
    fn clone(&self) -> (r: Self)
        ensures
            r@ == self@,
    {
        TaskSnapshot {
            task_id: self.task_id,
            track_uri: self.track_uri.clone(),
            collection: self.collection.clone(),
            status: self.status.clone(),
            message: copy_opt_string(&self.message),
            track_info: copy_opt_info(&self.track_info),
            registered_at: self.registered_at,
        }
    }
}

/// The views of a sequence of snapshots.
pub open spec fn views_of(s: Seq<TaskSnapshot>) -> Seq<SnapshotView> {
    s.map_values(|t: TaskSnapshot| t@)
}

proof fn lemma_views_push(s: Seq<TaskSnapshot>, x: TaskSnapshot)
    ensures
        views_of(s.push(x)) == views_of(s).push(x@),
{
    assert(views_of(s.push(x)) =~= views_of(s).push(x@));
}

/// Task ids strictly increase along the sequence (hence are unique).
pub open spec fn ids_sorted(s: Seq<SnapshotView>) -> bool {
    forall|i: int, j: int| 0 <= i < j < s.len() ==> s[i].task_id < s[j].task_id
}

/// No two records share a track URI.
pub open spec fn uris_unique(s: Seq<SnapshotView>) -> bool {
    forall|i: int, j: int| 0 <= i < s.len() && 0 <= j < s.len() && i != j
        ==> s[i].track_uri@ != s[j].track_uri@
}

/// The registry's invariant.
pub open spec fn registry_wf(s: Seq<SnapshotView>) -> bool {
    ids_sorted(s) && uris_unique(s)
}

/// The record that registering `e` with `status` at time `at` creates.
pub open spec fn new_record(e: QueueEntryView, status: TaskStatus, at: u64) -> SnapshotView {
    SnapshotView {
        task_id: e.task_id,
        track_uri: e.track_uri,
        collection: e.collection,
        status,
        message: None,
        track_info: None,
        registered_at: at,
    }
}

/// An old record survives the registration of `n` when it has another task
/// id and another track URI.
pub open spec fn survives(v: SnapshotView, n: SnapshotView) -> bool {
    v.track_uri@ != n.track_uri@ && v.task_id != n.task_id
}

/// `after` is `before` with record `n` registered: `n` replaces any record of
/// the same track URI or task id, and everything else stays.
pub open spec fn register_result(before: Seq<SnapshotView>, after: Seq<SnapshotView>, n: SnapshotView) -> bool {
    &&& registry_wf(after)
    &&& forall|v: SnapshotView| #[trigger] after.contains(v) <==> (v == n || (before.contains(v) && survives(v, n)))
}

/// `v` with the fields of progress update `u` applied: the status always,
/// the message and track metadata only when the update carries them.
pub open spec fn apply_update(v: SnapshotView, u: ProgressUpdate) -> SnapshotView {
    SnapshotView {
        status: u.status,
        message: if u.message is Some { u.message } else { v.message },
        track_info: if u.track_info is Some { opt_info_view(u.track_info) } else { v.track_info },
        ..v
    }
}

/// The registry after progress update `u`: the record with the update's task
/// id (there is at most one) takes the update; every other record stays.
pub open spec fn updated_all(s: Seq<SnapshotView>, u: ProgressUpdate) -> Seq<SnapshotView> {
    s.map_values(|v: SnapshotView| if v.task_id == u.task_id { apply_update(v, u) } else { v })
}

/// The record as it is after recovery: a `Running` task becomes `Pending`.
pub open spec fn reset_running(v: SnapshotView) -> SnapshotView {
    if v.status is Running {
        SnapshotView { status: TaskStatus::Pending, ..v }
    } else {
        v
    }
}

/// The queue entry that re-queues record `v`.
pub open spec fn entry_of(v: SnapshotView) -> QueueEntryView {
    QueueEntryView { task_id: v.task_id, track_uri: v.track_uri, collection: v.collection }
}

/// Entries for the records that still have to run, in registry order.
pub open spec fn recovered(s: Seq<SnapshotView>) -> Seq<QueueEntryView>
    decreases s.len(),
{
    if s.len() == 0 {
        Seq::empty()
    } else {
        let r = recovered(s.drop_last());
        if s.last().status.is_active() {
            r.push(entry_of(s.last()))
        } else {
            r
        }
    }
}

/// Number of finished records.
pub open spec fn count_finished(s: Seq<SnapshotView>) -> nat
    decreases s.len(),
{
    if s.len() == 0 {
        0
    } else {
        count_finished(s.drop_last()) + if s.last().status.is_finished() { 1nat } else { 0nat }
    }
}

/// How many records pruning to `limit` removes from `s`.
pub open spec fn prune_count(s: Seq<SnapshotView>, limit: nat) -> nat {
    if s.len() <= limit {
        0
    } else if (s.len() - limit) as nat <= count_finished(s) {
        (s.len() - limit) as nat
    } else {
        count_finished(s)
    }
}

/// `after` is `before` pruned towards `limit` records: only finished records
/// are removed, the oldest first, as many as bring the registry down to the
/// limit or as there are finished records.
pub open spec fn prune_result(before: Seq<SnapshotView>, after: Seq<SnapshotView>, limit: nat) -> bool {
    &&& registry_wf(after)
    &&& after.len() == before.len() - prune_count(before, limit)
    &&& forall|v: SnapshotView| #[trigger] after.contains(v) ==> before.contains(v)
    &&& forall|v: SnapshotView| #[trigger] before.contains(v) && v.status.is_active() ==> after.contains(v)
    &&& forall|x: SnapshotView, y: SnapshotView|
        #[trigger] before.contains(x) && !after.contains(x) && #[trigger] after.contains(y) && y.status.is_finished()
            ==> x.registered_at <= y.registered_at
}

proof fn lemma_count_finished_append(a: Seq<SnapshotView>, b: Seq<SnapshotView>)
    ensures
        count_finished(a + b) == count_finished(a) + count_finished(b),
    decreases b.len(),
{
    if b.len() > 0 {
        lemma_count_finished_append(a, b.drop_last());
        assert((a + b).drop_last() == a + b.drop_last());
    } else {
        assert(a + b == a);
    }
}

proof fn lemma_count_finished_remove(s: Seq<SnapshotView>, i: int)
    requires
        0 <= i < s.len(),
    ensures
        count_finished(s.remove(i)) + (if s[i].status.is_finished() { 1nat } else { 0nat }) == count_finished(s),
{
    let a = s.take(i);
    let m = seq![s[i]];
    let b = s.skip(i + 1);
    assert(s == a + m + b);
    assert(s.remove(i) == a + b);
    lemma_count_finished_append(a + m, b);
    lemma_count_finished_append(a, m);
    lemma_count_finished_append(a, b);
    assert(m.drop_last() == Seq::<SnapshotView>::empty());
    assert(count_finished(m.drop_last()) == 0);
    assert(m.last() == s[i]);
}

proof fn lemma_count_finished_zero(s: Seq<SnapshotView>)
    requires
        forall|j: int| 0 <= j < s.len() ==> !(#[trigger] s[j]).status.is_finished(),
    ensures
        count_finished(s) == 0,
    decreases s.len(),
{
    if s.len() > 0 {
        lemma_count_finished_zero(s.drop_last());
    }
}

proof fn lemma_count_finished_bound(s: Seq<SnapshotView>)
    ensures
        count_finished(s) <= s.len(),
    decreases s.len(),
{
    if s.len() > 0 {
        lemma_count_finished_bound(s.drop_last());
    }
}

/// The registry after recovery: every record reset by [`reset_running`].
pub open spec fn recovered_registry(s: Seq<SnapshotView>) -> Seq<SnapshotView> {
    s.map_values(|v: SnapshotView| reset_running(v))
}

/// The views of a sequence of queue entries.
pub open spec fn entry_views(s: Seq<QueueEntry>) -> Seq<QueueEntryView> {
    s.map_values(|e: QueueEntry| e@)
}

/// A copy of `rec` with progress update `u` applied.
fn updated_record(rec: &TaskSnapshot, u: &ProgressUpdate) -> (r: TaskSnapshot)
    ensures
        r@ == apply_update(rec@, *u),
{
    let message = if u.message.is_some() {
        copy_opt_string(&u.message)
    } else {
        copy_opt_string(&rec.message)
    };
    let track_info = if u.track_info.is_some() {
        copy_opt_info(&u.track_info)
    } else {
        copy_opt_info(&rec.track_info)
    };
    TaskSnapshot {
        task_id: rec.task_id,
        track_uri: rec.track_uri.clone(),
        collection: rec.collection.clone(),
        status: u.status.clone(),
        message,
        track_info,
        registered_at: rec.registered_at,
    }
}

/// A copy of `rec` as recovery leaves it.
fn reset_record(rec: &TaskSnapshot) -> (r: TaskSnapshot)
    ensures
        r@ == reset_running(rec@),
{
    let status = match rec.status {
        TaskStatus::Running => TaskStatus::Pending,
        _ => rec.status.clone(),
    };
    TaskSnapshot {
        task_id: rec.task_id,
        track_uri: rec.track_uri.clone(),
        collection: rec.collection.clone(),
        status,
        message: copy_opt_string(&rec.message),
        track_info: copy_opt_info(&rec.track_info),
        registered_at: rec.registered_at,
    }
}

proof fn lemma_views_remove(s: Seq<TaskSnapshot>, i: int)
    requires
        0 <= i < s.len(),
    ensures
        views_of(s.remove(i)) == views_of(s).remove(i),
{
    s.remove_ensures(i);
    views_of(s).remove_ensures(i);
    assert(views_of(s.remove(i)) =~= views_of(s).remove(i));
}

/// Removing one record keeps the others and the registry invariant.
proof fn lemma_remove_facts(s: Seq<SnapshotView>, i: int)
    requires
        0 <= i < s.len(),
    ensures
        forall|v: SnapshotView| #[trigger] s.remove(i).contains(v) ==> s.contains(v),
        forall|v: SnapshotView| s.contains(v) && v != s[i] ==> #[trigger] s.remove(i).contains(v),
        registry_wf(s) ==> registry_wf(s.remove(i)),
        registry_wf(s) ==> !s.remove(i).contains(s[i]),
{
    let r = s.remove(i);
    s.remove_ensures(i);
    assert forall|v: SnapshotView| #[trigger] r.contains(v) implies s.contains(v) by {
        let w = choose|w: int| 0 <= w < r.len() && #[trigger] r[w] == v;
        if w < i {
            assert(s[w] == v);
        } else {
            assert(s[w + 1] == v);
        }
    }
    assert forall|v: SnapshotView| s.contains(v) && v != s[i] implies #[trigger] r.contains(v) by {
        let w = choose|w: int| 0 <= w < s.len() && #[trigger] s[w] == v;
        if w < i {
            assert(r[w] == v);
        } else {
            assert(r[w - 1] == v);
        }
    }
    if registry_wf(s) {
        assert forall|a: int, b: int| 0 <= a < b < r.len() implies r[a].task_id < r[b].task_id by {
            let a2 = if a < i { a } else { a + 1 };
            let b2 = if b < i { b } else { b + 1 };
            assert(r[a] == s[a2]);
            assert(r[b] == s[b2]);
        }
        assert forall|a: int, b: int| 0 <= a < r.len() && 0 <= b < r.len() && a != b
            implies r[a].track_uri@ != r[b].track_uri@ by {
            let a2 = if a < i { a } else { a + 1 };
            let b2 = if b < i { b } else { b + 1 };
            assert(r[a] == s[a2]);
            assert(r[b] == s[b2]);
        }
        if r.contains(s[i]) {
            let w = choose|w: int| 0 <= w < r.len() && #[trigger] r[w] == s[i];
            let w2 = if w < i { w } else { w + 1 };
            assert(r[w] == s[w2]);
        }
    }
}

/// Registering keeps exactly one record per track URI: afterwards the new
/// record is present, it is the only record for its URI, and every record for
/// another URI and another task id is still there.
pub proof fn law_register_one_record_per_uri(before: Seq<SnapshotView>, after: Seq<SnapshotView>, n: SnapshotView)
    requires
        registry_wf(before),
        register_result(before, after, n),
    ensures
        after.contains(n),
        forall|v: SnapshotView| #[trigger] after.contains(v) && v.track_uri@ == n.track_uri@ ==> v == n,
        forall|v: SnapshotView| #[trigger] before.contains(v) && survives(v, n) ==> after.contains(v),
        uris_unique(after),
{
}

/// Pruning never removes a task that still has to run, and removes nothing
/// from a registry already within the limit.
pub proof fn law_prune_keeps_active(before: Seq<SnapshotView>, after: Seq<SnapshotView>, limit: nat)
    requires
        registry_wf(before),
        prune_result(before, after, limit),
    ensures
        forall|v: SnapshotView| #[trigger] before.contains(v) && v.status.is_active() ==> after.contains(v),
        before.len() <= limit ==> after.len() == before.len(),
        after.len() <= before.len(),
{
    lemma_count_finished_bound(before);
}

/// A whole registration (record, then prune to [`MAX_REGISTRY_ENTRIES`])
/// leaves at most one record for the registered track URI, and that record
/// is the new one, with no message; the new record stays whenever its task
/// still has to run; every other record is one that was there before, with
/// another track URI and task id; and every such earlier record whose task
/// still has to run is kept.
pub proof fn law_register_call(before: Seq<SnapshotView>, mid: Seq<SnapshotView>, after: Seq<SnapshotView>, n: SnapshotView)
    requires
        registry_wf(before),
        register_result(before, mid, n),
        prune_result(mid, after, MAX_REGISTRY_ENTRIES as nat),
    ensures
        registry_wf(after),
        forall|v: SnapshotView| #[trigger] after.contains(v) && v.track_uri@ == n.track_uri@ ==> v == n,
        n.status.is_active() ==> after.contains(n),
        forall|v: SnapshotView| #[trigger] after.contains(v) ==> v == n || (before.contains(v) && survives(v, n)),
        forall|v: SnapshotView| #[trigger] before.contains(v) && survives(v, n) && v.status.is_active() ==> after.contains(v),
{
    assert forall|v: SnapshotView| #[trigger] after.contains(v) && v.track_uri@ == n.track_uri@ implies v == n by {
        assert(mid.contains(v));
    }
    assert(mid.contains(n));
    assert forall|v: SnapshotView| #[trigger] after.contains(v) implies v == n || (before.contains(v) && survives(v, n)) by {
        assert(mid.contains(v));
    }
    assert forall|v: SnapshotView| #[trigger] before.contains(v) && survives(v, n) && v.status.is_active() implies after.contains(v) by {
        assert(mid.contains(v));
    }
}

/// After recovery no record is `Running`, and recovering a second time
/// changes nothing.
pub proof fn law_recover_idempotent(s: Seq<SnapshotView>)
    ensures
        forall|i: int| 0 <= i < s.len() ==> !(#[trigger] recovered_registry(s)[i]).status.is_running(),
        recovered_registry(recovered_registry(s)) == recovered_registry(s),
{
    assert(recovered_registry(recovered_registry(s)) =~= recovered_registry(s));
}

/// Recovery re-queues exactly the records that still have to run: each
/// returned entry names an active record, and there are as many entries as
/// active records.
pub proof fn law_recover_returns_active(s: Seq<SnapshotView>)
    ensures
        recovered(s).len() == s.len() - count_finished(s),
        forall|e: QueueEntryView| #[trigger] recovered(s).contains(e) ==>
            exists|i: int| 0 <= i < s.len() && s[i].status.is_active() && #[trigger] entry_of(s[i]) == e,
    decreases s.len(),
{
    if s.len() > 0 {
        let p = s.drop_last();
        law_recover_returns_active(p);
        assert forall|e: QueueEntryView| #[trigger] recovered(s).contains(e) implies
            exists|i: int| 0 <= i < s.len() && s[i].status.is_active() && #[trigger] entry_of(s[i]) == e by {
            if recovered(p).contains(e) {
                let i = choose|i: int| 0 <= i < p.len() && p[i].status.is_active() && #[trigger] entry_of(p[i]) == e;
                assert(s[i] == p[i]);
            } else {
                let r = recovered(s);
                let w = choose|w: int| 0 <= w < r.len() && #[trigger] r[w] == e;
                assert(w == recovered(p).len());
                assert(entry_of(s[s.len() - 1]) == e);
            }
        }
    }
}

/// An update for a task id that no record has leaves the registry unchanged.
pub proof fn law_update_unknown_is_noop(s: Seq<SnapshotView>, u: ProgressUpdate)
    requires
        forall|i: int| 0 <= i < s.len() ==> (#[trigger] s[i]).task_id != u.task_id,
    ensures
        updated_all(s, u) == s,
{
    assert(updated_all(s, u) =~= s);
}

/// What an update does to the record it names: its status becomes the
/// update's; its message and track metadata become the update's when the
/// update carries them and stay as they were when it does not; its id, URI,
/// collection and registration time stay. Records of other tasks, and the
/// order of records, stay as they were.
pub proof fn law_update_sets_only_what_it_carries(s: Seq<SnapshotView>, u: ProgressUpdate, i: int)
    requires
        0 <= i < s.len(),
    ensures
        updated_all(s, u).len() == s.len(),
        s[i].task_id != u.task_id ==> updated_all(s, u)[i] == s[i],
        s[i].task_id == u.task_id ==> {
            let r = updated_all(s, u)[i];
            &&& r.status == u.status
            &&& u.message is None ==> r.message == s[i].message
            &&& u.message is Some ==> r.message == u.message
            &&& u.track_info is None ==> r.track_info == s[i].track_info
            &&& u.track_info matches Some(t) ==> r.track_info == Some(t@)
            &&& r.task_id == s[i].task_id && r.track_uri == s[i].track_uri
            &&& r.collection == s[i].collection && r.registered_at == s[i].registered_at
        },
{
}

/// Track metadata reported once survives later updates that carry none: after
/// an update with metadata and then any number of updates without, the
/// record still holds that metadata.
pub proof fn law_track_info_survives_later_updates(s: Seq<SnapshotView>, first: ProgressUpdate, later: Seq<ProgressUpdate>, i: int)
    requires
        0 <= i < s.len(),
        s[i].task_id == first.task_id,
        first.track_info is Some,
        forall|k: int| 0 <= k < later.len() ==> (#[trigger] later[k]).track_info is None,
    ensures
        updates_in_turn(updated_all(s, first), later).len() == s.len(),
        updates_in_turn(updated_all(s, first), later)[i].track_info == opt_info_view(first.track_info),
{
    law_update_sets_only_what_it_carries(s, first, i);
    lemma_track_info_kept(updated_all(s, first), later, i);
}

/// The registry after each of `us` in turn.
pub open spec fn updates_in_turn(s: Seq<SnapshotView>, us: Seq<ProgressUpdate>) -> Seq<SnapshotView>
    decreases us.len(),
{
    if us.len() == 0 {
        s
    } else {
        updated_all(updates_in_turn(s, us.drop_last()), us.last())
    }
}

proof fn lemma_track_info_kept(s: Seq<SnapshotView>, us: Seq<ProgressUpdate>, i: int)
    requires
        0 <= i < s.len(),
        forall|k: int| 0 <= k < us.len() ==> (#[trigger] us[k]).track_info is None,
    ensures
        updates_in_turn(s, us).len() == s.len(),
        updates_in_turn(s, us)[i].track_info == s[i].track_info,
    decreases us.len(),
{
    if us.len() > 0 {
        let d = us.drop_last();
        assert forall|k: int| 0 <= k < d.len() implies (#[trigger] d[k]).track_info is None by {
            assert(d[k] == us[k]);
        }
        lemma_track_info_kept(s, d, i);
        assert(us[us.len() - 1].track_info is None);
        law_update_sets_only_what_it_carries(updates_in_turn(s, d), us.last(), i);
    }
}

/// The in-memory task registry.
pub struct TaskRegistry {
    tasks: Vec<TaskSnapshot>,
}

impl View for TaskRegistry {
    type V = Seq<SnapshotView>;

    closed spec fn view(&self) -> Seq<SnapshotView> {
        views_of(self.tasks@)
    }
}

impl TaskRegistry {
    /// The registry's invariant holds.
    pub open spec fn wf(&self) -> bool {
        registry_wf(self@)
    }

    /// An empty registry.
    pub fn new() -> (r: Self)
        ensures
            r@ == Seq::<SnapshotView>::empty(),
            r.wf(),
    {
        let r = TaskRegistry { tasks: Vec::new() };
        assert(r@ =~= Seq::<SnapshotView>::empty());
        r
    }

    /// Number of records.
    pub fn len(&self) -> (n: usize)
        ensures
            n == self@.len(),
    {
        self.tasks.len()
    }

    /// Records `entry` with `status` at time `registered_at`, replacing any
    /// record of the same track URI or task id.
    fn insert_record(&mut self, entry: &QueueEntry, status: TaskStatus, registered_at: u64)
        requires
            old(self).wf(),
        ensures
            register_result(old(self)@, final(self)@, new_record(entry@, status, registered_at)),
    {
        let ghost n = new_record(entry@, status, registered_at);
        let ghost old_v = self@;
        let mut old_tasks: Vec<TaskSnapshot> = Vec::new();
        std::mem::swap(&mut old_tasks, &mut self.tasks);
        let ghost ot = old_tasks@;
        assert(views_of(ot) == old_v);
        let fresh = TaskSnapshot {
            task_id: entry.task_id,
            track_uri: entry.track_uri.clone(),
            collection: entry.collection.clone(),
            status,
            message: None,
            track_info: None,
            registered_at,
        };
        assert(fresh@ == n);
        let mut pending: Option<TaskSnapshot> = Some(fresh);
        let mut out: Vec<TaskSnapshot> = Vec::new();
        for rec in it: old_tasks.into_iter()
            invariant
                it.seq() == ot,
                n == new_record(entry@, status, registered_at),
                views_of(ot) == old_v,
                registry_wf(old_v),
                pending matches Some(p) ==> p@ == n,
                registry_wf(views_of(out@)),
                forall|j: int| 0 <= j < it.index() && survives(#[trigger] old_v[j], n) ==> views_of(out@).contains(old_v[j]),
                forall|v: SnapshotView| #[trigger] views_of(out@).contains(v) ==>
                    (v == n && pending is None) || (old_v.take(it.index() as int).contains(v) && survives(v, n)),
                pending is None ==> views_of(out@).contains(n),
                pending is Some ==> forall|q: int| 0 <= q < out@.len() ==> (#[trigger] views_of(out@)[q]).task_id < n.task_id,
                it.index() < old_v.len() ==> forall|q: int| 0 <= q < out@.len()
                    ==> (#[trigger] views_of(out@)[q]).task_id < old_v[it.index() as int].task_id,
        {
            let ghost k = it.index() as int;
            let ghost ov = views_of(out@);
            assert(rec@ == old_v[k]);
            assert(old_v.take(k + 1) == old_v.take(k).push(old_v[k]));
            if rec.track_uri == entry.track_uri || rec.task_id == entry.task_id {
                assert(!survives(old_v[k], n));
            } else {
                assert(survives(old_v[k], n));
                if pending.is_some() && entry.task_id < rec.task_id {
                    let p = pending.take().unwrap();
                    proof {
                        lemma_views_push(out@, p);
                    }
                    out.push(p);
                    assert(views_of(out@) == ov.push(n));
                }
                let ghost ov2 = views_of(out@);
                proof {
                    lemma_views_push(out@, rec);
                }
                out.push(rec);
                assert(views_of(out@) == ov2.push(old_v[k]));
            }
            let ghost ov3 = views_of(out@);
            assert(forall|w: int| 0 <= w < ov.len() ==> ov3[w] == ov[w]);
            assert(pending is None ==> ov3.contains(n)) by {
                if pending is None {
                    if ov.contains(n) {
                        let w = choose|w: int| 0 <= w < ov.len() && #[trigger] ov[w] == n;
                        assert(ov3[w] == n);
                    } else {
                        assert(ov3[ov.len() as int] == n);
                    }
                }
            }
            assert forall|v: SnapshotView| #[trigger] ov3.contains(v) implies
                (v == n && pending is None) || (old_v.take(k + 1).contains(v) && survives(v, n)) by {
                if ov.contains(v) {
                    if !(v == n && pending is None) {
                        let tk = old_v.take(k);
                        let w = choose|w: int| 0 <= w < tk.len() && #[trigger] tk[w] == v;
                        assert(old_v.take(k + 1)[w] == v);
                    }
                } else {
                    let w = choose|w: int| 0 <= w < ov3.len() && #[trigger] ov3[w] == v;
                    if v != n {
                        assert(old_v.take(k + 1)[k] == v);
                    }
                }
            }
            assert forall|j: int| 0 <= j < k + 1 && survives(#[trigger] old_v[j], n) implies ov3.contains(old_v[j]) by {
                if j < k {
                    let w = choose|w: int| 0 <= w < ov.len() && #[trigger] ov[w] == old_v[j];
                    if ov3.len() > ov.len() {
                        assert(ov3[w] == ov[w]);
                    }
                } else {
                    assert(ov3[ov3.len() - 1] == old_v[k]);
                }
            }
            assert(registry_wf(ov3)) by {
                assert forall|a: int, b: int| 0 <= a < ov3.len() && 0 <= b < ov3.len() && a != b
                    implies ov3[a].track_uri@ != ov3[b].track_uri@ by {
                    assert(ov3.contains(ov3[a]));
                    assert(ov3.contains(ov3[b]));
                    if ov3[a] != n && ov3[b] != n {
                        let tk = old_v.take(k + 1);
                        let wa = choose|w: int| 0 <= w < tk.len() && #[trigger] tk[w] == ov3[a];
                        let wb = choose|w: int| 0 <= w < tk.len() && #[trigger] tk[w] == ov3[b];
                        if wa == wb {
                            assert(ov3[a] == ov3[b]);
                            assert(ids_sorted(ov3));
                        }
                    }
                }
            }
            assert(k + 1 < old_v.len() ==> old_v[k].task_id < old_v[k + 1].task_id);
        }
        assert(old_v.take(old_v.len() as int) == old_v);
        let ghost mid = views_of(out@);
        if pending.is_some() {
            let p = pending.take().unwrap();
            proof {
                lemma_views_push(out@, p);
            }
            out.push(p);
            let ghost ov3 = views_of(out@);
            assert(ov3 == mid.push(n));
            assert(registry_wf(ov3)) by {
                assert forall|a: int, b: int| 0 <= a < ov3.len() && 0 <= b < ov3.len() && a != b
                    implies ov3[a].track_uri@ != ov3[b].track_uri@ by {
                    if a < mid.len() && b < mid.len() {
                    } else if a < mid.len() {
                        assert(mid.contains(mid[a]));
                    } else {
                        assert(mid.contains(mid[b]));
                    }
                }
            }
        }
        let ghost fin = views_of(out@);
        assert(fin == mid || fin == mid.push(n));
        assert(fin.contains(n)) by {
            if fin == mid.push(n) {
                assert(fin[mid.len() as int] == n);
            }
        }
        assert forall|v: SnapshotView| #[trigger] fin.contains(v) <==> (v == n || (old_v.contains(v) && survives(v, n))) by {
            if old_v.contains(v) && survives(v, n) {
                let w = choose|w: int| 0 <= w < old_v.len() && #[trigger] old_v[w] == v;
                assert(survives(old_v[w], n));
                assert(mid.contains(v));
                if fin == mid.push(n) {
                    let u = choose|u: int| 0 <= u < mid.len() && #[trigger] mid[u] == v;
                    assert(fin[u] == v);
                }
            }
            if fin.contains(v) && v != n {
                if fin == mid.push(n) {
                    let u = choose|u: int| 0 <= u < fin.len() && #[trigger] fin[u] == v;
                    assert(mid[u] == v);
                }
                assert(mid.contains(v));
            }
        }
        self.tasks = out;
    }

    /// Records `entry` with `status`, registered at `registered_at` (Unix
    /// epoch milliseconds), then prunes old finished records down to
    /// [`MAX_REGISTRY_ENTRIES`]. Any earlier record for the same track URI is
    /// replaced, so the registry holds exactly one record per track URI.
    pub fn register_at(&mut self, entry: &QueueEntry, status: TaskStatus, registered_at: u64)
        requires
            old(self).wf(),
        ensures
            final(self).wf(),
            exists|mid: Seq<SnapshotView>|
                register_result(old(self)@, mid, new_record(entry@, status, registered_at))
                    && #[trigger] prune_result(mid, final(self)@, MAX_REGISTRY_ENTRIES as nat),
            forall|v: SnapshotView| #[trigger] final(self)@.contains(v) && v.track_uri@ == entry.track_uri@
                ==> v == new_record(entry@, status, registered_at),
            status.is_active() ==> final(self)@.contains(new_record(entry@, status, registered_at)),
            forall|v: SnapshotView| #[trigger] final(self)@.contains(v)
                ==> v == new_record(entry@, status, registered_at)
                    || (old(self)@.contains(v) && survives(v, new_record(entry@, status, registered_at))),
            forall|v: SnapshotView| #[trigger] old(self)@.contains(v) && survives(v, new_record(entry@, status, registered_at))
                && v.status.is_active() ==> final(self)@.contains(v),
    {
        let ghost before = self@;
        self.insert_record(entry, status, registered_at);
        let ghost mid = self@;
        self.prune_to(MAX_REGISTRY_ENTRIES);
        assert(prune_result(mid, self@, MAX_REGISTRY_ENTRIES as nat));
        proof {
            law_register_call(before, mid, self@, new_record(entry@, status, registered_at));
        }
    }

    /// [`register_at`](Self::register_at) at the current time.
    pub fn register(&mut self, entry: &QueueEntry, status: TaskStatus)
        requires
            old(self).wf(),
        ensures
            final(self).wf(),
            exists|t: u64, mid: Seq<SnapshotView>|
                #[trigger] register_result(old(self)@, mid, new_record(entry@, status, t))
                    && prune_result(mid, final(self)@, MAX_REGISTRY_ENTRIES as nat),
    {
        let t = unix_millis_now();
        self.register_at(entry, status, t);
    }

    /// Applies progress update `u` to the record with the same task id. An
    /// update for an unknown task changes nothing.
    pub fn update(&mut self, u: &ProgressUpdate)
        requires
            old(self).wf(),
        ensures
            final(self)@ == updated_all(old(self)@, *u),
            final(self).wf(),
    {
        let ghost before = self@;
        let mut i: usize = 0;
        while i < self.tasks.len()
            invariant
                i <= self.tasks.len(),
                self@.len() == before.len(),
                forall|j: int| 0 <= j < i ==> #[trigger] self@[j] == updated_all(before, *u)[j],
                forall|j: int| i <= j < self@.len() ==> #[trigger] self@[j] == before[j],
            decreases self.tasks.len() - i,
        {
            let ghost pre = self@;
            assert(pre[i as int] == self.tasks@[i as int]@);
            assert(updated_all(before, *u)[i as int] == (if before[i as int].task_id == u.task_id {
                apply_update(before[i as int], *u)
            } else {
                before[i as int]
            }));
            if self.tasks[i].task_id == u.task_id {
                let r = updated_record(&self.tasks[i], u);
                self.tasks.set(i, r);
                assert(self@ =~= pre.update(i as int, r@));
            }
            assert(self@[i as int] == updated_all(before, *u)[i as int]);
            i = i + 1;
        }
        assert(self@ =~= updated_all(before, *u));
    }

    /// Prepares the registry after a restart and returns the entries to
    /// re-queue, in registry order: `Running` records (interrupted mid-flight)
    /// are reset to `Pending`; `Pending`, `Retrying` and the reset records are
    /// returned; `Done` and `Failed` records are left alone.
    pub fn recover_interrupted(&mut self) -> (r: Vec<QueueEntry>)
        requires
            old(self).wf(),
        ensures
            final(self)@ == recovered_registry(old(self)@),
            final(self).wf(),
            entry_views(r@) == recovered(old(self)@),
    {
        let ghost before = self@;
        let mut out: Vec<QueueEntry> = Vec::new();
        let mut i: usize = 0;
        while i < self.tasks.len()
            invariant
                i <= self.tasks.len(),
                self@.len() == before.len(),
                forall|j: int| 0 <= j < i ==> #[trigger] self@[j] == recovered_registry(before)[j],
                forall|j: int| i <= j < self@.len() ==> #[trigger] self@[j] == before[j],
                entry_views(out@) == recovered(before.take(i as int)),
            decreases self.tasks.len() - i,
        {
            let ghost pre = self@;
            let ghost eo = entry_views(out@);
            assert(pre[i as int] == self.tasks@[i as int]@);
            assert(before.take(i + 1).drop_last() == before.take(i as int));
            assert(before.take(i + 1).last() == before[i as int]);
            assert(recovered_registry(before)[i as int] == reset_running(before[i as int]));
            if !self.tasks[i].status.has_finished() {
                let e = QueueEntry {
                    task_id: self.tasks[i].task_id,
                    track_uri: self.tasks[i].track_uri.clone(),
                    collection: self.tasks[i].collection.clone(),
                };
                out.push(e);
                assert(entry_views(out@) =~= eo.push(e@));
                if let TaskStatus::Running = self.tasks[i].status {
                    let r = reset_record(&self.tasks[i]);
                    self.tasks.set(i, r);
                    assert(self@ =~= pre.update(i as int, r@));
                }
            }
            assert(self@[i as int] == recovered_registry(before)[i as int]);
            i = i + 1;
        }
        assert(self@ =~= recovered_registry(before));
        assert(before.take(before.len() as int) == before);
        out
    }

    /// Index of the finished record registered first, if any.
    fn oldest_finished(&self) -> (r: Option<usize>)
        ensures
            r is None ==> forall|j: int| 0 <= j < self@.len() ==> !(#[trigger] self@[j]).status.is_finished(),
            r matches Some(i) ==> i < self@.len() && self@[i as int].status.is_finished()
                && forall|j: int| 0 <= j < self@.len() && (#[trigger] self@[j]).status.is_finished()
                    ==> self@[i as int].registered_at <= self@[j].registered_at,
    {
        let mut best: Option<usize> = None;
        let mut i: usize = 0;
        while i < self.tasks.len()
            invariant
                i <= self.tasks.len(),
                self@.len() == self.tasks@.len(),
                best is None ==> forall|j: int| 0 <= j < i ==> !(#[trigger] self@[j]).status.is_finished(),
                best matches Some(b) ==> b < i && self@[b as int].status.is_finished()
                    && forall|j: int| 0 <= j < i && (#[trigger] self@[j]).status.is_finished()
                        ==> self@[b as int].registered_at <= self@[j].registered_at,
            decreases self.tasks.len() - i,
        {
            assert(self@[i as int] == self.tasks@[i as int]@);
            if self.tasks[i].status.has_finished() {
                match best {
                    None => {
                        best = Some(i);
                    },
                    Some(b) => {
                        assert(self@[b as int] == self.tasks@[b as int]@);
                        if self.tasks[i].registered_at < self.tasks[b].registered_at {
                            best = Some(i);
                        }
                    },
                }
            }
            i = i + 1;
        }
        best
    }

    /// Drops finished records, the oldest first, until at most `limit`
    /// records remain or no finished record is left. Active records are never
    /// dropped.
    pub fn prune_to(&mut self, limit: usize)
        requires
            old(self).wf(),
        ensures
            prune_result(old(self)@, final(self)@, limit as nat),
            old(self)@.len() <= limit ==> final(self)@ == old(self)@,
            final(self).wf(),
    {
        let ghost before = self@;
        let total = self.tasks.len();
        if total <= limit {
            return;
        }
        let to_remove = total - limit;
        let mut removed: usize = 0;
        let mut exhausted = false;
        proof {
            lemma_count_finished_bound(before);
        }
        while removed < to_remove && !exhausted
            invariant
                registry_wf(self@),
                before.len() == total,
                total > limit,
                to_remove == total - limit,
                removed <= to_remove,
                self@.len() == before.len() - removed,
                count_finished(self@) + removed == count_finished(before),
                exhausted ==> count_finished(self@) == 0,
                forall|v: SnapshotView| #[trigger] self@.contains(v) ==> before.contains(v),
                forall|v: SnapshotView| #[trigger] before.contains(v) && v.status.is_active() ==> self@.contains(v),
                forall|x: SnapshotView, y: SnapshotView|
                    #[trigger] before.contains(x) && !self@.contains(x) && #[trigger] self@.contains(y)
                        && y.status.is_finished() ==> x.registered_at <= y.registered_at,
            decreases to_remove - removed + (if exhausted { 0int } else { 1int }),
        {
            match self.oldest_finished() {
                None => {
                    proof {
                        lemma_count_finished_zero(self@);
                    }
                    exhausted = true;
                },
                Some(idx) => {
                    let ghost cur = self@;
                    let ghost m = cur[idx as int];
                    proof {
                        lemma_views_remove(self.tasks@, idx as int);
                        lemma_remove_facts(cur, idx as int);
                        lemma_count_finished_remove(cur, idx as int);
                    }
                    self.tasks.remove(idx);
                    assert(self@ == cur.remove(idx as int));
                    assert forall|v: SnapshotView| #[trigger] before.contains(v) && v.status.is_active()
                        implies self@.contains(v) by {
                        assert(cur.contains(v));
                        assert(v != m);
                    }
                    assert forall|x: SnapshotView, y: SnapshotView|
                        #[trigger] before.contains(x) && !self@.contains(x) && #[trigger] self@.contains(y)
                            && y.status.is_finished() implies x.registered_at <= y.registered_at by {
                        assert(cur.contains(y));
                        let w = choose|w: int| 0 <= w < cur.len() && #[trigger] cur[w] == y;
                        if cur.contains(x) {
                            if x != m {
                                assert(self@.contains(x));
                            }
                        }
                    }
                    removed = removed + 1;
                },
            }
        }
    }

    /// All records with their current status, in task-id order.
    pub fn snapshot(&self) -> (r: Vec<TaskSnapshot>)
        ensures
            views_of(r@) == self@,
    {
        let mut r: Vec<TaskSnapshot> = Vec::new();
        let mut i: usize = 0;
        while i < self.tasks.len()
            invariant
                i <= self.tasks.len(),
                views_of(r@) == self@.take(i as int),
                self@ == views_of(self.tasks@),
            decreases self.tasks.len() - i,
        {
            let c = self.tasks[i].clone();
            proof {
                lemma_views_push(r@, c);
            }
            r.push(c);
            i = i + 1;
            assert(views_of(r@) =~= self@.take(i as int));
        }
        assert(self@.take(i as int) =~= self@);
        r
    }
}

} // verus!
