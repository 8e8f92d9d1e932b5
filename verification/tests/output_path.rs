use fetching_core::audio::AudioFormat;
use fetching_core::container::{CollectionType, Track, TrackCollection};
use fetching_core::output_path::{
    build_output_dir, build_output_path, build_output_stem, ext_for_format, safe_component,
};

fn make_collection(title: &str, date: Option<&str>) -> TrackCollection {
    TrackCollection {
        uri_str: "spotify:album:test".to_string(),
        collection_type: CollectionType::Album,
        title: title.to_string(),
        artists: vec!["Artist".to_string()],
        cover_id: None,
        upc: None,
        total_tracks: 1,
        label: None,
        date: date.map(str::to_string),
        track_uris: vec![],
    }
}

fn make_track(title: &str, artist: &str, number: i32, disc: Option<i32>) -> Track {
    Track {
        uri_str: "spotify:track:test".to_string(),
        title: title.to_string(),
        artists: vec![artist.to_string()],
        cover_id: None,
        isrc: None,
        duration_ms: 180_000,
        disc_number: disc,
        number: Some(number),
        date: Some("2000".to_string()),
        explicit: false,
        language: vec![],
    }
}

fn file_name(p: &str) -> String {
    p.rsplit('/').next().unwrap().to_string()
}

#[test]
fn normal_path_is_correct() {
    let col = make_collection("Flood", Some("1990-01-15"));
    let track = make_track("Birdhouse in Your Soul", "They Might Be Giants", 2, None);
    let path = build_output_path("/music", &track, &col, AudioFormat::OGG_VORBIS_320);
    assert_eq!(
        path,
        "/music/They Might Be Giants/1990 - Flood/02 - Birdhouse in Your Soul.ogg"
    );
}

#[test]
fn primary_artist_only_not_all_artists() {
    let col = make_collection("Album", Some("2000"));
    let mut track = make_track("Track", "Primary Artist", 1, None);
    track.artists = vec!["Primary Artist".to_string(), "Featured Artist".to_string()];
    let path = build_output_path("/music", &track, &col, AudioFormat::OGG_VORBIS_320);
    assert!(path.contains("Primary Artist"));
    assert!(!path.contains("Featured Artist"));
}

#[test]
fn traversal_attack_is_neutralised() {
    let col = make_collection("../etc", Some("2000"));
    let track = make_track("passwd", "../etc/passwd", 1, None);
    let path = build_output_path("/music", &track, &col, AudioFormat::OGG_VORBIS_320);
    let s = path.as_str();
    assert!(!s.contains("/etc/passwd"), "traversal not neutralised: {s}");
    assert!(s.starts_with("/music/"), "base dir escaped: {s}");
}

#[test]
fn windows_reserved_name_is_sanitised_on_windows_left_alone_on_linux() {
    let col = make_collection("CON", Some("2000"));
    let track = make_track("NUL", "CON", 1, None);
    let path = build_output_path("/music", &track, &col, AudioFormat::MP3_320);
    let s = path.as_str();
    assert!(s.starts_with("/music/"), "base dir escaped: {s}");
}

#[test]
fn multi_disc_prefixes_disc_number() {
    let col = make_collection("Double Album", Some("2005"));
    let track = make_track("Side B Opener", "Band", 1, Some(2));
    let path = build_output_path("/music", &track, &col, AudioFormat::FLAC_FLAC);
    assert!(file_name(&path).starts_with("2-01"));
}

#[test]
fn disc_1_has_no_disc_prefix() {
    let col = make_collection("Album", Some("2005"));
    let track = make_track("Opener", "Band", 1, Some(1));
    let path = build_output_path("/music", &track, &col, AudioFormat::FLAC_FLAC);
    assert!(file_name(&path).starts_with("01"));
}

#[test]
fn missing_date_falls_back_to_0000() {
    let col = make_collection("Dateless", None);
    let track = make_track("Track", "Artist", 1, None);
    let path = build_output_path("/music", &track, &col, AudioFormat::OGG_VORBIS_160);
    assert!(path.contains("0000 - Dateless"));
}

#[test]
fn empty_artist_falls_back_to_unknown() {
    let col = make_collection("Album", Some("2000"));
    let mut track = make_track("Track", "Artist", 1, None);
    track.artists = vec![];
    let path = build_output_path("/music", &track, &col, AudioFormat::OGG_VORBIS_320);
    assert!(path.contains("Unknown Artist"));
}

#[test]
fn ext_for_format_covers_all_variants() {
    let cases = [
        (AudioFormat::OGG_VORBIS_320, "ogg"),
        (AudioFormat::OGG_VORBIS_160, "ogg"),
        (AudioFormat::OGG_VORBIS_96, "ogg"),
        (AudioFormat::FLAC_FLAC, "flac"),
        (AudioFormat::FLAC_FLAC_24BIT, "flac"),
        (AudioFormat::MP3_320, "mp3"),
        (AudioFormat::AAC_320, "m4a"),
        (AudioFormat::MP4_128, "m4a"),
        (AudioFormat::XHE_AAC_12, "m4a"),
        (AudioFormat::OTHER5, "bin"),
    ];
    for (fmt, expected) in cases {
        assert_eq!(ext_for_format(fmt), expected, "wrong ext for {fmt:?}");
    }
}

#[test]
fn safe_component_edges() {
    assert_eq!(safe_component(""), "_");
    assert_eq!(safe_component("  a/b  "), "ab");
    assert_eq!(safe_component("..."), "_");
    let long = "é".repeat(150);
    let cut = safe_component(&long);
    assert_eq!(cut.len(), 200);
    let odd = format!("a{}", "é".repeat(150));
    assert_eq!(safe_component(&odd).len(), 201);
}

#[test]
fn dir_and_stem_agree_with_full_path() {
    let col = make_collection("Flood", Some("1990-01-15"));
    let track = make_track("Birdhouse", "TMBG", 12, Some(3));
    assert_eq!(build_output_dir("/music", &track, &col), "/music/TMBG/1990 - Flood");
    assert_eq!(build_output_stem("/music", &track, &col), "/music/TMBG/1990 - Flood/3-12 - Birdhouse");
    assert_eq!(
        build_output_path("/music", &track, &col, AudioFormat::MP3_96),
        "/music/TMBG/1990 - Flood/3-12 - Birdhouse.mp3"
    );
    let short_date = make_collection("X", Some("99"));
    assert_eq!(build_output_dir("/m", &track, &short_date), "/m/TMBG/0000 - X");
}

#[test]
fn metadata_names_add_no_path_separators() {
    let col = make_collection("a/b/c", Some("1999-12-31"));
    let mut track = make_track("x/y", "p/q", 3, Some(2));
    track.artists = vec!["p/q".to_string()];
    let path = build_output_path("/music", &track, &col, AudioFormat::FLAC_FLAC);
    let parts: Vec<&str> = path.split('/').collect();
    assert_eq!(parts.len(), 5, "unexpected components in {path}");
    assert_eq!(parts[0], "");
    assert_eq!(parts[1], "music");
    assert!(parts[4].starts_with("2-03 - "));
    assert!(parts[4].ends_with(".flac"));
}
