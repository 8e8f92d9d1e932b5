use fetching_core::audio::AudioFormat;
use fetching_core::container::{CollectionType, Track, TrackCollection};
use fetching_core::job::{job_step, JobAction, JobEvent, JobStage, JobState};
use fetching_core::status::TaskStatus;

fn track() -> Track {
    Track {
        uri_str: "spotify:track:abc".to_string(),
        title: "So What".to_string(),
        artists: vec!["Miles Davis".to_string()],
        cover_id: Some("ab12".to_string()),
        isrc: None,
        duration_ms: 545_000,
        disc_number: Some(1),
        number: Some(1),
        date: None,
        explicit: false,
        language: vec![],
    }
}

fn collection() -> TrackCollection {
    TrackCollection {
        uri_str: "spotify:album:xyz".to_string(),
        collection_type: CollectionType::Album,
        title: "Kind of Blue".to_string(),
        artists: vec!["Miles Davis".to_string()],
        cover_id: None,
        upc: None,
        total_tracks: 5,
        label: None,
        date: Some("1959-08-17".to_string()),
        track_uris: vec!["spotify:track:abc".to_string()],
    }
}

fn emitted(a: &JobAction) -> (TaskStatus, String) {
    match a {
        JobAction::Emit(u) => (u.status.clone(), u.message.clone().unwrap()),
        other => panic!("expected an update, got {other:?}"),
    }
}

#[test]
fn job_runs_every_step_in_order() {
    let s = JobState::new(7, "c1".to_string(), "/music".to_string(), collection());
    let (s, acts) = job_step(s, JobEvent::Metadata(track()));
    assert_eq!(s.stage, JobStage::CheckingExisting);
    assert_eq!(acts.len(), 2);
    assert_eq!(emitted(&acts[0]), (TaskStatus::Running, "Running…".to_string()));
    match &acts[0] {
        JobAction::Emit(u) => assert_eq!(u.track_info.as_ref().unwrap().title, "So What"),
        _ => unreachable!(),
    }
    match &acts[1] {
        JobAction::LookForExisting { stem } => assert_eq!(stem, "/music/Miles Davis/1959 - Kind of Blue/01 - So What"),
        other => panic!("{other:?}"),
    }

    let (s, acts) = job_step(s, JobEvent::NoExisting);
    assert_eq!(emitted(&acts[0]).1, "Fetching cover art…");
    assert!(matches!(&acts[1], JobAction::FetchCover { cover_id } if cover_id == "ab12"));

    let (s, acts) = job_step(s, JobEvent::CoverFailed);
    assert!(!s.has_cover);
    assert_eq!(emitted(&acts[0]).1, "Downloading audio…");
    assert!(matches!(&acts[1], JobAction::Download { dir } if dir == "/music/Miles Davis/1959 - Kind of Blue"));

    let (s, acts) = job_step(s, JobEvent::Downloaded(AudioFormat::OGG_VORBIS_320));
    assert_eq!(acts.len(), 1);
    assert!(matches!(&acts[0], JobAction::Persist { path } if path == "/music/Miles Davis/1959 - Kind of Blue/01 - So What.ogg"));

    let (s, acts) = job_step(s, JobEvent::Persisted);
    assert_eq!(emitted(&acts[0]).1, "Writing tags…");
    assert!(matches!(&acts[1], JobAction::WriteTags(plan) if plan.title == "So What" && !plan.embed_cover));

    let (s, acts) = job_step(s, JobEvent::TagsWritten(false));
    assert_eq!(s.stage, JobStage::Finished);
    assert!(matches!(&acts[0], JobAction::Finish(Ok(Some(m))) if m == "Downloaded"));
}

#[test]
fn job_skips_a_track_already_on_disk() {
    let s = JobState::new(1, String::new(), "/m".to_string(), collection());
    let (s, _) = job_step(s, JobEvent::Metadata(track()));
    let (s, acts) = job_step(s, JobEvent::ExistingFound);
    assert_eq!(s.stage, JobStage::Finished);
    assert!(matches!(&acts[0], JobAction::Finish(Ok(Some(m))) if m == "File already exists"));
}

#[test]
fn job_failures_end_the_job_and_stray_events_change_nothing() {
    let s = JobState::new(1, String::new(), "/m".to_string(), collection());
    let (s, acts) = job_step(s, JobEvent::Persisted);
    assert_eq!(s.stage, JobStage::FetchingMetadata);
    assert!(acts.is_empty());
    let (s, acts) = job_step(s, JobEvent::MetadataFailed("no such track".to_string()));
    assert_eq!(s.stage, JobStage::Finished);
    assert!(matches!(&acts[0], JobAction::Finish(Err(e)) if e == "no such track"));

    let s = JobState::new(1, String::new(), "/m".to_string(), collection());
    let (s, _) = job_step(s, JobEvent::Metadata(track()));
    let (s, _) = job_step(s, JobEvent::NoExisting);
    let (s, _) = job_step(s, JobEvent::Cover(true));
    assert!(s.has_cover);
    let (s, acts) = job_step(s, JobEvent::DownloadFailed("timeout".to_string()));
    assert_eq!(s.stage, JobStage::Finished);
    assert!(matches!(&acts[0], JobAction::Finish(Err(e)) if e == "timeout"));
}
