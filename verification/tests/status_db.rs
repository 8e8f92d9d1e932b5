use fetching_core::container::CollectionType;
use fetching_core::db::{collection_type_to_str, count_statuses, is_complete, str_to_collection_type};
use fetching_core::status::TaskStatus;

#[test]
fn task_status_db_round_trips() {
    let cases = [
        TaskStatus::Pending,
        TaskStatus::Running,
        TaskStatus::Retrying,
        TaskStatus::Done,
        TaskStatus::Failed {
            reason: "disk full".to_string(),
        },
    ];
    for status in &cases {
        let db_str = status.to_db();
        let back = TaskStatus::from_db(&db_str);
        assert_eq!(&back, status, "DB round-trip failed for {db_str}");
    }
}

#[test]
fn unknown_status_text_reads_as_failure() {
    assert_eq!(TaskStatus::Failed { reason: "x".into() }.to_db(), "failed:x");
    assert_eq!(
        TaskStatus::from_db("weird"),
        TaskStatus::Failed { reason: "unknown status: weird".into() }
    );
    assert_eq!(TaskStatus::from_db("failed:"), TaskStatus::Failed { reason: String::new() });
}

#[test]
fn collection_types_round_trip_through_text() {
    for ct in [
        CollectionType::Album,
        CollectionType::Playlist,
        CollectionType::Show,
        CollectionType::SingleTrack,
        CollectionType::SingleEpisode,
    ] {
        assert_eq!(str_to_collection_type(collection_type_to_str(&ct)), ct);
    }
    assert_eq!(collection_type_to_str(&CollectionType::SingleEpisode), "single_episode");
    assert_eq!(str_to_collection_type("mixtape"), CollectionType::Album);
}

fn texts(v: &[&str]) -> Vec<String> {
    v.iter().map(|s| s.to_string()).collect()
}

#[test]
fn summary_status_done_when_all_done() {
    let c = count_statuses(&texts(&["done", "done"]));
    assert_eq!(c.status(), "done");
    assert_eq!(c.progress(), 100);
}

#[test]
fn summary_status_running_when_any_active() {
    let c = count_statuses(&texts(&["done", "running", "pending"]));
    assert_eq!(c.status(), "running");
    assert_eq!(c.progress(), 33);
    let r = count_statuses(&texts(&["retrying", "failed:x"]));
    assert_eq!(r.status(), "running");
}

#[test]
fn summary_status_failed_when_any_failed_none_active() {
    let c = count_statuses(&texts(&["done", "failed:network"]));
    assert_eq!(c.status(), "failed");
    assert_eq!(c.progress(), 50);
    let p = count_statuses(&texts(&["pending"]));
    assert_eq!(p.status(), "pending");
    let e = count_statuses(&texts(&[]));
    assert_eq!(e.status(), "pending");
    assert_eq!(e.progress(), 0);
}

#[test]
fn complete_false_when_pending() {
    assert!(!is_complete(&texts(&["done", "pending"])));
}

#[test]
fn complete_true_when_all_done() {
    assert!(is_complete(&texts(&["done", "done"])));
}

#[test]
fn complete_true_when_mix_of_done_and_failed() {
    assert!(is_complete(&texts(&["done", "failed:boom"])));
}
