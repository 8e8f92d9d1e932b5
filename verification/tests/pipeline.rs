use fetching_core::audio::{best_ogg_format, choose_audio_source, choose_ogg_source, AudioFormat, Source};
use fetching_core::auth::{token_file_plan, TokenFilePlan};
use fetching_core::builders::build_track_path;
use fetching_core::config::{Config, EnvValues};
use fetching_core::container::{CollectionType, Track, TrackCollection};
use fetching_core::coordinator::{final_update, running_update, DownloadCoordinator, JobOutcome};
use fetching_core::cover::{
    collage_plan, composite_cover, cover_art_source, cover_plan, create_cover_collage, AlbumCoverPicker,
    CoverArtSource, CoverError, PaintStep,
};
use fetching_core::db::{RecoveredEntry, TrackRow};
use fetching_core::playback::play_audio_files;
use fetching_core::queue::fresh_id;
use fetching_core::progress::{completed_update, downloading_update, fetching_update, run_summary, scope_for, uri_kind, ProgressScope, UriKind};
use fetching_core::runner::{
    collection_search_dir, finalise_plan, playlist_entries, playlist_location, retry_message, FinalisePlan,
};
use fetching_core::status::TaskStatus;
use fetching_core::tagger::{plan_tags, primary_tag_type_for, AudioFileType, TagKey, TagType};
use fetching_core::uri::{track_item_kind, TrackItemKind};
use std::cell::RefCell;

fn make_track() -> Track {
    Track {
        uri_str: "spotify:track:abc".to_string(),
        title: "Blue in Green".to_string(),
        artists: vec!["Miles Davis".to_string(), "Bill Evans".to_string()],
        cover_id: None,
        isrc: Some("USSM15900123".to_string()),
        duration_ms: 327_000,
        disc_number: Some(1),
        number: Some(2),
        date: Some("1959-08-17".to_string()),
        explicit: false,
        language: vec!["en".to_string()],
    }
}

fn make_collection() -> TrackCollection {
    TrackCollection {
        uri_str: "spotify:album:xyz".to_string(),
        collection_type: CollectionType::Album,
        title: "Kind of Blue".to_string(),
        artists: vec!["Miles Davis".to_string()],
        cover_id: None,
        upc: Some("074646443026".to_string()),
        total_tracks: 5,
        label: Some("Columbia".to_string()),
        date: Some("1959-08-17".to_string()),
        track_uris: vec!["spotify:track:a".to_string(), "spotify:track:b".to_string()],
    }
}

#[test]
fn primary_tag_type_fallback_ogg_returns_vorbis() {
    let _ = make_track();
    let _ = make_collection();
    assert_eq!(primary_tag_type_for(AudioFileType::Vorbis), TagType::VorbisComments);
    assert_eq!(primary_tag_type_for(AudioFileType::Flac), TagType::VorbisComments);
    assert_eq!(primary_tag_type_for(AudioFileType::Mp4), TagType::Mp4Ilst);
    assert_eq!(primary_tag_type_for(AudioFileType::Mpeg), TagType::Id3v2);
}

#[test]
fn tag_plan_lists_every_field() {
    let plan = plan_tags(&make_track(), &make_collection(), true);
    assert_eq!(plan.title, "Blue in Green");
    assert_eq!(plan.album, "Kind of Blue");
    assert_eq!(plan.track_artists.len(), 2);
    assert_eq!(plan.album_artists.as_ref().unwrap(), &vec!["Miles Davis".to_string()]);
    assert_eq!(plan.track_number, Some((2, 5)));
    assert_eq!(plan.disc_number, Some(1));
    assert!(plan.embed_cover);
    let texts: Vec<(TagKey, String)> = plan.texts.iter().map(|t| (t.key, t.value.clone())).collect();
    assert_eq!(
        texts,
        vec![
            (TagKey::RecordingDate, "1959-08-17".to_string()),
            (TagKey::Year, "1959".to_string()),
            (TagKey::Isrc, "USSM15900123".to_string()),
            (TagKey::Label, "Columbia".to_string()),
            (TagKey::Barcode, "074646443026".to_string()),
            (TagKey::AudioSourceUrl, "spotify:track:abc".to_string()),
            (TagKey::Comment, "spotify_uri=spotify:track:abc".to_string()),
            (TagKey::ParentalAdvisory, "0".to_string()),
            (TagKey::Language, "en".to_string()),
        ]
    );
    let mut t = make_track();
    t.date = Some("19x9".to_string());
    t.language = vec!["en".into(), "fr".into()];
    t.explicit = true;
    let p = plan_tags(&t, &make_collection(), false);
    assert!(p.texts.iter().all(|x| x.key != TagKey::Year));
    assert!(p.texts.iter().any(|x| x.key == TagKey::Language && x.value == "en/fr"));
    assert!(p.texts.iter().any(|x| x.key == TagKey::ParentalAdvisory && x.value == "1"));
}

#[test]
fn coordinator_add_collection_returns_one_task_id_per_track_uri() {
    let mut coord = DownloadCoordinator::new();
    let (_, pairs) = coord.add_collection(&make_collection());
    assert_eq!(pairs.len(), 2);
    assert_ne!(pairs[0].1, pairs[1].1, "task IDs must be unique");
    assert_eq!(coord.len(), 2);
}

#[test]
fn add_collection_pushes_entries_in_order() {
    let mut coord = DownloadCoordinator::new();
    let (_, pairs) = coord.add_collection(&make_collection());
    let first = coord.next_job().unwrap();
    let second = coord.next_job().unwrap();
    assert_eq!(first.track_uri, "spotify:track:a");
    assert_eq!(second.track_uri, "spotify:track:b");
    assert_eq!(first.task_id, pairs[0].1);
    assert_eq!(second.task_id, pairs[1].1);
    assert!(coord.next_job().is_none());
    assert!(coord.is_empty());
}

#[test]
fn worker_updates_run_then_finish() {
    let r = running_update(7, "col");
    assert_eq!(r.status, TaskStatus::Running);
    assert_eq!(r.message.as_deref(), Some("Running…"));
    let d = final_update(7, "col", JobOutcome::Finished(Some("Downloaded".into())));
    assert_eq!(d.status, TaskStatus::Done);
    assert_eq!(d.message.as_deref(), Some("Downloaded"));
    let f = final_update(7, "col", JobOutcome::Failed("boom".into()));
    assert_eq!(f.status, TaskStatus::Failed { reason: "boom".into() });
    let p = final_update(7, "col", JobOutcome::Panicked("oops".into()));
    assert_eq!(p.status, TaskStatus::Failed { reason: "worker panic: oops".into() });
    assert_eq!(p.collection_id, "col");
}

#[test]
fn runner_decisions() {
    assert_eq!(retry_message(1, 5, 5000), "Retry (1/5) in 5s");
    assert_eq!(retry_message(2, 5, 5001), "Retry (2/5) in 6s");
    assert_eq!(retry_message(2, 5, 0), "Retry (2/5) in 0s");
    let col = make_collection();
    assert_eq!(collection_search_dir("/music", &col), "/music/Miles Davis/1959 - Kind of Blue");
    let mut pl = make_collection();
    pl.collection_type = CollectionType::Playlist;
    assert_eq!(collection_search_dir("/music", &pl), "/music");
    let (dir, path) = playlist_location("/music", &pl, "/music/a/b/c.ogg");
    assert_eq!(dir, "/music/Kind of Blue");
    assert_eq!(path, "/music/Kind of Blue/Kind of Blue.m3u8");
    let (dir2, path2) = playlist_location("/music", &col, "/music/a/b/c.ogg");
    assert_eq!(dir2, "/music/a/b");
    assert_eq!(path2, "/music/a/b/Kind of Blue.m3u8");
    assert_eq!(finalise_plan(CollectionType::SingleTrack, 3), FinalisePlan::CoverOnly);
    assert_eq!(finalise_plan(CollectionType::Album, 0), FinalisePlan::NothingDownloaded);
    assert_eq!(finalise_plan(CollectionType::Show, 2), FinalisePlan::PlaylistAndCover);
}

fn row(uri: &str, title: Option<&str>, dur: Option<i32>) -> TrackRow {
    TrackRow {
        id: "t".into(),
        uri: uri.into(),
        title: title.map(str::to_string),
        artists: None,
        number: None,
        disc_number: None,
        duration_ms: dur,
        task_id: "x".into(),
        status: "done".into(),
        message: None,
    }
}

#[test]
fn playlist_entries_take_titles_from_rows() {
    let uris = vec!["u1".to_string(), "u2".to_string(), "u3".to_string()];
    let found = vec![Some("/p1".to_string()), None, Some("/p3".to_string())];
    let rows = vec![row("u1", Some("One"), Some(1000)), row("u3", None, None)];
    let e = playlist_entries(&uris, &found, &rows);
    assert_eq!(e.len(), 2);
    assert_eq!((e[0].final_path.as_str(), e[0].title.as_str(), e[0].duration_ms), ("/p1", "One", 1000));
    assert_eq!((e[1].final_path.as_str(), e[1].title.as_str(), e[1].duration_ms), ("/p3", "u3", 0));
}

#[test]
fn progress_reports() {
    assert_eq!(scope_for(UriKind::Album), Some(ProgressScope::Album));
    assert_eq!(scope_for(UriKind::Other), None);
    let f = fetching_update(1, ProgressScope::Playlist, "spotify:playlist:x");
    assert_eq!(f.status, "Fetching playlist");
    assert_eq!((f.current, f.total), (0, 1));
    let d = downloading_update(1, "Song");
    assert_eq!(d.item, "Track: Song");
    let c = completed_update(1, ProgressScope::Track, "Track: Song");
    assert_eq!(c.status, "Completed");
}

#[test]
fn playback_stops_at_first_failure() {
    let played = RefCell::new(Vec::new());
    let paths = vec!["a".to_string(), "bad".to_string(), "c".to_string()];
    let r = play_audio_files(&paths, |p: &String| {
        played.borrow_mut().push(p.clone());
        if p == "bad" { Err("cannot decode".to_string()) } else { Ok(()) }
    });
    assert_eq!(r, Err("cannot decode".to_string()));
    assert_eq!(played.borrow().len(), 2);
    let ok = play_audio_files(&vec!["x".to_string()], |_p: &String| Ok(()));
    assert!(ok.is_ok());
}

#[test]
fn cover_layouts_follow_the_table() {
    assert_eq!(cover_plan(1), vec![PaintStep::Tile { tile: 0, x: 0, y: 0, w: 600, h: 600 }]);
    assert_eq!(cover_plan(3)[2], PaintStep::Tile { tile: 2, x: 300, y: 300, w: 300, h: 300 });
    let five = cover_plan(5);
    assert_eq!(five.len(), 6);
    assert_eq!(five[4], PaintStep::White { x: 180, y: 180, size: 240 });
    assert_eq!(five[5], PaintStep::Tile { tile: 0, x: 190, y: 190, w: 220, h: 220 });
    assert_eq!(collage_plan(3)[2], PaintStep::Tile { tile: 2, x: 0, y: 300, w: 300, h: 300 });
}

#[test]
fn composite_cover_rejects_empty() {
    assert!(composite_cover(&vec![]).is_err());
}

#[test]
fn composite_cover_errors_name_their_cause() {
    assert!(matches!(composite_cover(&vec![]), Err(CoverError::NoImages)));
    assert!(matches!(composite_cover(&vec![b"nope".to_vec()]), Err(CoverError::NothingDecoded)));
    assert!(matches!(create_cover_collage(&vec![]), Err(CoverError::NoImages)));
    assert!(matches!(create_cover_collage(&vec![b"x".to_vec()]), Err(CoverError::NothingDecoded)));
}

#[test]
fn cover_sources_and_picker() {
    assert_eq!(cover_art_source(true, 3), CoverArtSource::Provided);
    assert_eq!(cover_art_source(false, 3), CoverArtSource::Collage);
    assert_eq!(cover_art_source(false, 0), CoverArtSource::Nothing);
    let mut picker = AlbumCoverPicker::new();
    assert!(picker.should_fetch("a"));
    picker.add_cover();
    assert!(!picker.should_fetch("a"));
    for id in ["b", "c", "d"] {
        assert!(picker.should_fetch(id));
        picker.add_cover();
    }
    assert!(!picker.should_fetch("e"));
    assert_eq!(picker.collected(), 4);
}

#[test]
fn older_track_paths() {
    let p = build_track_path("/music", &Some("2023-04-01".into()), &vec!["A B".into(), "C".into()], "The Album", "Song: One", 5);
    assert_eq!(p, "/music/A_B_C/The_Album/2023_A_B_C_The_Album_005_Song_One.ogg");
    let q = build_track_path("/m", &None, &vec![], "x", "y", 120);
    assert_eq!(q, "/m/x/0__x_120_y.ogg");
}

#[test]
fn config_from_environment_values() {
    let env = EnvValues {
        client_id: Some("id".into()),
        redirect_uri: None,
        music_dir: Some("/srv".into()),
        track_delay_ms: Some("50".into()),
        max_retries: Some("x".into()),
        retry_delay_ms: None,
        network_timeout_secs: Some("9".into()),
    };
    let c = Config::from_env_values(&env);
    assert_eq!(c.oauth_client_id, "id");
    assert_eq!(c.redirect_uri, "http://127.0.0.1:8898/login");
    assert_eq!(c.get_music_dir("/home/listener"), "/srv");
    assert_eq!(c.track_delay_ms, 50);
    assert_eq!(c.max_retries, 5);
    assert_eq!(c.retry_delay_ms, 1000);
    assert_eq!(c.network_timeout_secs, 9);
}

#[test]
fn audio_source_choice() {
    assert_eq!(best_ogg_format(&vec![AudioFormat::MP3_320, AudioFormat::OGG_VORBIS_96, AudioFormat::OGG_VORBIS_160]), Some(AudioFormat::OGG_VORBIS_160));
    assert_eq!(best_ogg_format(&vec![AudioFormat::MP3_320]), None);
    assert_eq!(choose_ogg_source(Some(AudioFormat::OGG_VORBIS_320), &vec![Some(AudioFormat::OGG_VORBIS_320)]), Some(Source::Original));
    assert_eq!(choose_ogg_source(Some(AudioFormat::OGG_VORBIS_96), &vec![None, Some(AudioFormat::OGG_VORBIS_160), Some(AudioFormat::OGG_VORBIS_160)]), Some(Source::Alternative(1)));
    assert_eq!(choose_ogg_source(None, &vec![None]), None);
    assert_eq!(choose_audio_source(None, &vec![Some(AudioFormat::MP3_96), Some(AudioFormat::FLAC_FLAC)]), Some(Source::Alternative(1)));
    assert_eq!(choose_audio_source(Some(AudioFormat::OGG_VORBIS_320), &vec![Some(AudioFormat::AAC_320)]), Some(Source::Original));
}

#[test]
fn misc_decisions() {
    assert_eq!(token_file_plan(true, Some(true)), TokenFilePlan::CachedCredentials);
    assert_eq!(token_file_plan(false, Some(true)), TokenFilePlan::RefreshOrBrowserFlow);
    assert_eq!(token_file_plan(false, None), TokenFilePlan::BrowserFlow);
    assert_eq!(track_item_kind("episode"), Some(TrackItemKind::Episode));
    assert_eq!(track_item_kind("album"), None);
    let e = RecoveredEntry { task_id: 3, track_uri: "u".into(), collection: make_collection() }.into_queue_entry();
    assert_eq!((e.task_id, e.track_uri.as_str()), (3, "u"));
}

#[test]
fn run_summary_fails_only_when_nothing_succeeded() {
    let one_ok = run_summary(1, 1, 0);
    assert!(!one_ok.show_progress);
    assert!(!one_ok.show_summary);
    assert!(!one_ok.all_failed);

    let one_failed = run_summary(1, 0, 1);
    assert!(!one_failed.show_progress);
    assert!(one_failed.show_summary);
    assert!(one_failed.all_failed);

    let mixed = run_summary(3, 1, 2);
    assert!(mixed.show_progress);
    assert!(mixed.show_summary);
    assert!(!mixed.all_failed);
}

fn file_name_of(p: &str) -> &str {
    std::path::Path::new(p).file_name().unwrap().to_str().unwrap()
}

#[test]
fn test_build_track_path_without_prefix() {
    let temp_dir = tempfile::tempdir().unwrap();
    let base_music_dir = temp_dir.path().to_str().unwrap();
    let result = build_track_path(
        base_music_dir,
        &Some("2023".to_string()),
        &vec!["Test Artist".to_string()],
        "Test Album",
        "Test Track",
        5,
    );
    assert_eq!(file_name_of(&result), "2023_Test_Artist_Test_Album_005_Test_Track.ogg");
    let expected_dir = temp_dir.path().join("Test_Artist").join("Test_Album");
    assert!(std::path::Path::new(&result).parent().unwrap() == expected_dir);
}

#[test]
fn test_build_track_path_multiple_artists() {
    let temp_dir = tempfile::tempdir().unwrap();
    let base_music_dir = temp_dir.path().to_str().unwrap();
    let result = build_track_path(
        base_music_dir,
        &Some("2022".to_string()),
        &vec!["Artist One".to_string(), "Artist Two".to_string()],
        "Collaboration Album",
        "Collaboration Track",
        10,
    );
    assert_eq!(
        file_name_of(&result),
        "2022_Artist_One_Artist_Two_Collaboration_Album_010_Collaboration_Track.ogg"
    );
}

#[test]
fn test_build_track_path_special_characters() {
    let temp_dir = tempfile::tempdir().unwrap();
    let base_music_dir = temp_dir.path().to_str().unwrap();
    let result = build_track_path(
        base_music_dir,
        &Some("2021".to_string()),
        &vec!["Artist/With\\Bad<Chars>".to_string()],
        "Album: Deluxe|Edition?",
        "Track: With? Special*Chars!",
        2,
    );
    assert_eq!(
        file_name_of(&result),
        "2021_Artist_With_Bad_Chars_Album_Deluxe_Edition_002_Track_With_Special_Chars.ogg"
    );
}

fn small_png() -> Vec<u8> {
    let img = image::DynamicImage::ImageRgb8(image::RgbImage::from_pixel(10, 10, image::Rgb([200u8, 10u8, 10u8])));
    let mut buf = std::io::Cursor::new(Vec::new());
    img.write_to(&mut buf, image::ImageFormat::Png).unwrap();
    buf.into_inner()
}

#[test]
fn covers_encode_whenever_one_decodes() {
    let png = small_png();
    let composite = composite_cover(&vec![b"nope".to_vec(), png.clone()]).unwrap();
    assert_eq!(&composite[..2], &[0xFF, 0xD8]);
    let decoded = image::load_from_memory(&composite).unwrap();
    assert_eq!((decoded.width(), decoded.height()), (600, 600));

    let single = create_cover_collage(&vec![png.clone()]).unwrap();
    let decoded = image::load_from_memory(&single).unwrap();
    assert_eq!((decoded.width(), decoded.height()), (300, 300));

    let pair = create_cover_collage(&vec![png.clone(), b"x".to_vec()]).unwrap();
    let decoded = image::load_from_memory(&pair).unwrap();
    assert_eq!((decoded.width(), decoded.height()), (300, 300));

    let late = vec![b"a".to_vec(), b"b".to_vec(), b"c".to_vec(), b"d".to_vec(), png];
    assert!(matches!(create_cover_collage(&late), Err(CoverError::NothingDecoded)));
}

#[test]
fn numeric_settings_follow_integer_parsing() {
    let env = EnvValues {
        client_id: None,
        redirect_uri: None,
        music_dir: None,
        track_delay_ms: Some("+75".into()),
        max_retries: Some("-2".into()),
        retry_delay_ms: Some("18446744073709551616".into()),
        network_timeout_secs: Some(" 9".into()),
    };
    let c = Config::from_env_values(&env);
    assert_eq!(c.track_delay_ms, 75);
    assert_eq!(c.max_retries, 5);
    assert_eq!(c.retry_delay_ms, 1000);
    assert_eq!(c.network_timeout_secs, 30);
    assert_eq!(build_track_path("/m", &Some("-12-01".into()), &vec!["A".into()], "B", "C", 1), "/m/A/B/0_A_B_001_C.ogg");
}

#[test]
fn item_types_pick_the_processing_scope() {
    assert_eq!(uri_kind("track"), UriKind::Track);
    assert_eq!(uri_kind("album"), UriKind::Album);
    assert_eq!(uri_kind("playlist"), UriKind::Playlist);
    assert_eq!(uri_kind("show"), UriKind::Other);
    assert_eq!(scope_for(uri_kind("album")), Some(ProgressScope::Album));
    assert_eq!(scope_for(uri_kind("episode")), None);
}

fn solid_png(rgb: [u8; 3]) -> Vec<u8> {
    let img = image::DynamicImage::ImageRgb8(image::RgbImage::from_pixel(16, 16, image::Rgb(rgb)));
    let mut buf = std::io::Cursor::new(Vec::new());
    img.write_to(&mut buf, image::ImageFormat::Png).unwrap();
    buf.into_inner()
}

fn pixel_at(jpeg: &[u8], x: u32, y: u32) -> [u8; 3] {
    image::load_from_memory(jpeg).unwrap().to_rgb8().get_pixel(x, y).0
}

fn near(p: [u8; 3], q: [u8; 3]) -> bool {
    p.iter().zip(q.iter()).all(|(a, b)| (*a as i32 - *b as i32).abs() < 40)
}

#[test]
fn composite_paints_each_cover_in_its_place() {
    let red = solid_png([220, 20, 20]);
    let blue = solid_png([20, 20, 220]);
    let two = composite_cover(&vec![red.clone(), blue.clone()]).unwrap();
    assert!(near(pixel_at(&two, 100, 300), [220, 20, 20]));
    assert!(near(pixel_at(&two, 500, 300), [20, 20, 220]));

    let green = solid_png([20, 200, 20]);
    let five = composite_cover(&vec![green, red.clone(), red.clone(), blue.clone(), blue.clone()]).unwrap();
    assert!(near(pixel_at(&five, 50, 50), [220, 20, 20]));
    assert!(near(pixel_at(&five, 550, 550), [20, 20, 220]));
    assert!(near(pixel_at(&five, 184, 300), [255, 255, 255]));
    assert!(near(pixel_at(&five, 300, 300), [20, 200, 20]));

    let collage = create_cover_collage(&vec![blue.clone(), red.clone(), blue, red]).unwrap();
    assert!(near(pixel_at(&collage, 150, 150), [20, 20, 220]));
    assert!(near(pixel_at(&collage, 450, 150), [220, 20, 20]));
    assert!(near(pixel_at(&collage, 150, 450), [20, 20, 220]));
}

#[test]
fn fresh_id_keeps_a_new_draw_and_replaces_a_repeat() {
    assert_eq!(fresh_id(&vec![1, 2], 5), 5);
    assert_eq!(fresh_id(&vec![], 0), 0);
    assert_eq!(fresh_id(&vec![0, 1, 3], 1), 2);
    assert_eq!(fresh_id(&vec![7, 0], 7), 1);
}
