use fetching_core::container::{CollectionType, TrackCollection};
use fetching_core::coordinator::ProgressUpdate;
use fetching_core::queue::{InMemoryStorage, QueueEntry};
use fetching_core::registry::TaskRegistry;
use fetching_core::status::TaskStatus;

fn fake_collection(uris: &[&str]) -> TrackCollection {
    TrackCollection {
        uri_str: "spotify:album:test".to_string(),
        collection_type: CollectionType::Album,
        title: "Test Album".to_string(),
        artists: vec!["Artist".to_string()],
        cover_id: None,
        upc: None,
        total_tracks: uris.len(),
        label: None,
        date: None,
        track_uris: uris.iter().map(|s| s.to_string()).collect(),
    }
}

fn temp_registry() -> TaskRegistry {
    TaskRegistry::new()
}

#[test]
fn register_and_snapshot_round_trips() {
    let mut reg = temp_registry();
    let col = fake_collection(&["uri:a"]);
    let entry = QueueEntry::new("uri:a".to_string(), col);
    reg.register(&entry, TaskStatus::Pending);

    let snap = reg.snapshot();
    assert_eq!(snap.len(), 1);
    assert_eq!(snap[0].task_id, entry.task_id);
    assert_eq!(snap[0].track_uri, "uri:a");
    assert_eq!(snap[0].status, TaskStatus::Pending);
}

#[test]
fn snapshot_on_empty_registry_returns_empty_vec() {
    let reg = temp_registry();
    assert!(reg.snapshot().is_empty());
}

#[test]
fn register_replaces_existing_entry_for_same_track_uri() {
    let mut reg = temp_registry();
    let col = fake_collection(&["uri:a"]);

    let first = QueueEntry::new("uri:a".to_string(), col.clone());
    reg.register(&first, TaskStatus::Done);

    let second = QueueEntry::new("uri:a".to_string(), col);
    reg.register(&second, TaskStatus::Pending);

    let snap = reg.snapshot();
    assert_eq!(snap.len(), 1, "old entry should have been replaced");
    assert_eq!(snap[0].task_id, second.task_id);
    assert_eq!(snap[0].status, TaskStatus::Pending);
}

#[test]
fn register_does_not_replace_different_track_uri() {
    let mut reg = temp_registry();
    let col = fake_collection(&["uri:a", "uri:b"]);

    let a = QueueEntry::new("uri:a".to_string(), col.clone());
    let b = QueueEntry::new("uri:b".to_string(), col);
    reg.register(&a, TaskStatus::Pending);
    reg.register(&b, TaskStatus::Pending);

    assert_eq!(reg.snapshot().len(), 2);
}

#[test]
fn update_changes_status() {
    let mut reg = temp_registry();
    let col = fake_collection(&["uri:a"]);
    let entry = QueueEntry::new("uri:a".to_string(), col);
    reg.register(&entry, TaskStatus::Pending);

    reg.update(&ProgressUpdate {
        task_id: entry.task_id,
        collection_id: String::new(),
        status: TaskStatus::Running,
        message: Some("Running…".into()),
        track_info: None,
    });

    let snap = reg.snapshot();
    assert_eq!(snap[0].status, TaskStatus::Running);
    assert_eq!(snap[0].message.as_deref(), Some("Running…"));
}

#[test]
fn update_unknown_task_is_noop() {
    let mut reg = temp_registry();
    reg.update(&ProgressUpdate {
        task_id: uuid::Uuid::new_v4().as_u128(),
        collection_id: String::new(),
        status: TaskStatus::Done,
        message: None,
        track_info: None,
    });
    assert!(reg.snapshot().is_empty());
}

#[test]
fn update_keeps_message_when_update_has_none() {
    let mut reg = temp_registry();
    let entry = QueueEntry::new("uri:a".to_string(), fake_collection(&["uri:a"]));
    reg.register(&entry, TaskStatus::Pending);
    reg.update(&ProgressUpdate {
        task_id: entry.task_id,
        collection_id: String::new(),
        status: TaskStatus::Running,
        message: Some("first".into()),
        track_info: None,
    });
    reg.update(&ProgressUpdate {
        task_id: entry.task_id,
        collection_id: String::new(),
        status: TaskStatus::Done,
        message: None,
        track_info: None,
    });
    let snap = reg.snapshot();
    assert_eq!(snap[0].status, TaskStatus::Done);
    assert_eq!(snap[0].message.as_deref(), Some("first"));
}

#[test]
fn recover_returns_running_as_pending() {
    let mut reg = temp_registry();
    let col = fake_collection(&["uri:a"]);
    let entry = QueueEntry::new("uri:a".to_string(), col);
    reg.register(&entry, TaskStatus::Running);

    let recovered = reg.recover_interrupted();
    assert_eq!(recovered.len(), 1);
    assert_eq!(recovered[0].task_id, entry.task_id);

    let snap = reg.snapshot();
    assert_eq!(snap[0].status, TaskStatus::Pending);
}

#[test]
fn recover_returns_pending_entries() {
    let mut reg = temp_registry();
    let col = fake_collection(&["uri:a"]);
    let entry = QueueEntry::new("uri:a".to_string(), col);
    reg.register(&entry, TaskStatus::Pending);

    let recovered = reg.recover_interrupted();
    assert_eq!(recovered.len(), 1);
}

#[test]
fn recover_skips_done_and_failed() {
    let mut reg = temp_registry();
    let col = fake_collection(&["uri:a", "uri:b"]);

    let done = QueueEntry::new("uri:a".to_string(), col.clone());
    reg.register(&done, TaskStatus::Done);

    let failed = QueueEntry::new("uri:b".to_string(), col);
    reg.register(&failed, TaskStatus::Failed { reason: "oops".into() });

    let recovered = reg.recover_interrupted();
    assert!(recovered.is_empty(), "Done/Failed should not be recovered");
}

#[test]
fn recover_on_empty_registry_returns_empty() {
    let mut reg = temp_registry();
    assert!(reg.recover_interrupted().is_empty());
}

#[test]
fn recover_twice_changes_nothing_more() {
    let mut reg = temp_registry();
    let col = fake_collection(&["uri:a", "uri:b"]);
    reg.register(&QueueEntry::new("uri:a".to_string(), col.clone()), TaskStatus::Running);
    reg.register(&QueueEntry::new("uri:b".to_string(), col), TaskStatus::Retrying);
    let first = reg.recover_interrupted();
    let second = reg.recover_interrupted();
    assert_eq!(first.len(), 2);
    assert_eq!(second.len(), 2);
    for s in reg.snapshot() {
        assert_ne!(s.status, TaskStatus::Running);
    }
}

#[test]
fn prune_does_nothing_at_or_below_limit() {
    let mut reg = temp_registry();
    let col = fake_collection(&["uri:a", "uri:b"]);
    for uri in ["uri:a", "uri:b"] {
        reg.register(&QueueEntry::new(uri.to_string(), col.clone()), TaskStatus::Done);
    }
    reg.prune_to(2);
    assert_eq!(reg.snapshot().len(), 2);
}

#[test]
fn prune_drops_oldest_finished_tasks_first() {
    let mut reg = temp_registry();
    let col = fake_collection(&["uri:a", "uri:b", "uri:c"]);

    let entries: Vec<_> = ["uri:a", "uri:b", "uri:c"]
        .iter()
        .enumerate()
        .map(|(i, uri)| {
            let e = QueueEntry::new(uri.to_string(), col.clone());
            reg.register_at(&e, TaskStatus::Done, 1_000 + 2 * i as u64);
            e
        })
        .collect();

    reg.prune_to(2);

    let snap = reg.snapshot();
    assert_eq!(snap.len(), 2, "should have pruned down to limit");
    let remaining_uris: Vec<_> = snap.iter().map(|s| s.track_uri.as_str()).collect();
    assert!(!remaining_uris.contains(&"uri:a"), "oldest entry should have been pruned");
    assert!(remaining_uris.contains(&"uri:b"));
    assert!(remaining_uris.contains(&"uri:c"));
    let _ = entries;
}

#[test]
fn prune_never_removes_active_tasks() {
    let mut reg = temp_registry();
    let col = fake_collection(&["uri:a", "uri:b", "uri:c"]);

    reg.register(&QueueEntry::new("uri:a".to_string(), col.clone()), TaskStatus::Done);
    reg.register(&QueueEntry::new("uri:b".to_string(), col.clone()), TaskStatus::Pending);
    reg.register(&QueueEntry::new("uri:c".to_string(), col), TaskStatus::Running);

    reg.prune_to(1);

    let snap = reg.snapshot();
    assert_eq!(snap.len(), 2, "only Done task should have been removed");
    let uris: Vec<_> = snap.iter().map(|s| s.track_uri.as_str()).collect();
    assert!(uris.contains(&"uri:b"), "Pending task must not be pruned");
    assert!(uris.contains(&"uri:c"), "Running task must not be pruned");
}

#[test]
fn registry_is_ordered_by_task_id() {
    let mut reg = temp_registry();
    let col = fake_collection(&["a", "b", "c", "d"]);
    for u in ["a", "b", "c", "d"] {
        reg.register(&QueueEntry::new(u.to_string(), col.clone()), TaskStatus::Pending);
    }
    let snap = reg.snapshot();
    for w in snap.windows(2) {
        assert!(w[0].task_id < w[1].task_id);
    }
}

#[test]
fn entry_new_assigns_unique_task_ids() {
    let col = fake_collection(&["uri:a"]);
    let a = QueueEntry::new("uri:a".to_string(), col.clone());
    let b = QueueEntry::new("uri:a".to_string(), col);
    assert_ne!(a.task_id, b.task_id);
}

#[test]
fn entry_new_stores_track_uri() {
    let col = fake_collection(&["spotify:track:abc"]);
    let e = QueueEntry::new("spotify:track:abc".to_string(), col);
    assert_eq!(e.track_uri, "spotify:track:abc");
}

#[test]
fn queue_memory_storage_pop_on_empty_returns_none() {
    let mut s = InMemoryStorage::new();
    assert!(s.pop().is_none());
}

#[test]
fn queue_memory_storage_preserves_fifo_order() {
    let mut s = InMemoryStorage::new();
    let col = fake_collection(&["a", "b", "c"]);
    for uri in ["a", "b", "c"] {
        s.push(QueueEntry::new(uri.to_string(), col.clone()));
    }
    assert_eq!(s.pop().unwrap().track_uri, "a");
    assert_eq!(s.pop().unwrap().track_uri, "b");
    assert_eq!(s.pop().unwrap().track_uri, "c");
    assert!(s.pop().is_none());
}

#[test]
fn queue_tokio_storage_pop_on_empty_returns_none() {
    let mut s = InMemoryStorage::default();
    assert!(s.pop().is_none());
    assert!(s.is_empty());
}

#[test]
fn queue_tokio_storage_preserves_fifo_order() {
    let mut s = InMemoryStorage::default();
    let col = fake_collection(&["a", "b", "c"]);
    for uri in ["a", "b", "c"] {
        s.push(QueueEntry::new(uri.to_string(), col.clone()));
    }
    assert_eq!(s.len(), 3);
    assert_eq!(s.pop().unwrap().track_uri, "a");
    assert_eq!(s.pop().unwrap().track_uri, "b");
    assert_eq!(s.pop().unwrap().track_uri, "c");
    assert!(s.pop().is_none());
}

#[test]
fn registering_a_uri_again_keeps_one_record() {
    let mut reg = temp_registry();
    let col = fake_collection(&["uri:a", "uri:b"]);
    let first = QueueEntry { task_id: 10, track_uri: "uri:a".to_string(), collection: col.clone() };
    let other = QueueEntry { task_id: 20, track_uri: "uri:b".to_string(), collection: col.clone() };
    let again = QueueEntry { task_id: 30, track_uri: "uri:a".to_string(), collection: col };
    reg.register_at(&first, TaskStatus::Done, 1);
    reg.register_at(&other, TaskStatus::Pending, 2);
    reg.register_at(&again, TaskStatus::Pending, 3);
    let snap = reg.snapshot();
    assert_eq!(snap.len(), 2);
    let a: Vec<_> = snap.iter().filter(|s| s.track_uri == "uri:a").collect();
    assert_eq!(a.len(), 1);
    assert_eq!(a[0].task_id, 30);
    assert_eq!(a[0].status, TaskStatus::Pending);
    assert!(a[0].message.is_none());
    assert!(snap.iter().any(|s| s.task_id == 20));
}
