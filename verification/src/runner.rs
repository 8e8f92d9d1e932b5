//! Decisions of the per-track download job and of collection finalisation:
//! the retry notice, where a collection's files are looked for, which
//! tracks its playlist lists and where that playlist goes.

use vstd::prelude::*;
use crate::container::{CollectionType, TrackCollection};
use crate::db::TrackRow;
use crate::output_path::{safe_component, safe_component_text};
use crate::paths::{joined, parent_of, path_join, path_parent};
use crate::playlist::TrackEntry;
use crate::text::{chars_of, decimal, find_either, first_pos, owned, push_decimal, push_str_chars, string_from_chars, chars_between};
use crate::cache::artist_name;

verus! {

/// `Retry ({failed}/{max}) in {seconds}s`, the seconds rounded up.
pub open spec fn retry_text(failed: nat, max: nat, wait_ms: nat) -> Seq<char> {
    "Retry ("@ + decimal(failed) + "/"@ + decimal(max) + ") in "@ + decimal((wait_ms + 999) / 1000) + "s"@
}

/// The progress message shown while a download waits to retry.
pub fn retry_message(failed_attempt: u32, max_attempts: u32, wait_ms: u64) -> (r: String)
    requires
        wait_ms + 999 <= u64::MAX,
    ensures
        r@ == retry_text(failed_attempt as nat, max_attempts as nat, wait_ms as nat),
{
    let secs = (wait_ms + 999) / 1000;
    let mut v: Vec<char> = Vec::new();
    push_str_chars(&mut v, "Retry (");
    push_decimal(&mut v, failed_attempt as u64);
    push_str_chars(&mut v, "/");
    push_decimal(&mut v, max_attempts as u64);
    push_str_chars(&mut v, ") in ");
    push_decimal(&mut v, secs);
    push_str_chars(&mut v, "s");
    assert(v@ =~= retry_text(failed_attempt as nat, max_attempts as nat, wait_ms as nat));
    string_from_chars(v.as_slice())
}

/// The year used for a collection's directory: the date up to its first
/// `-`, or `0000` without a date.
pub open spec fn dir_year(date: Option<String>) -> Seq<char> {
    match date {
        Some(d) => d@.take(first_pos(d@, '-', '-') as int),
        None => "0000"@,
    }
}

/// Where a collection's downloaded files are looked for: the output
/// directory itself for playlists, else
/// `{output}/{first artist}/{year} - {album}`.
pub open spec fn search_dir_text(output_dir: Seq<char>, c: TrackCollection) -> Seq<char> {
    if c.collection_type == CollectionType::Playlist {
        output_dir
    } else {
        let artist = if c.artists@.len() > 0 { safe_component_text(c.artists@[0]@) } else { "Unknown Artist"@ };
        joined(joined(output_dir, artist), dir_year(c.date) + " - "@ + safe_component_text(c.title@))
    }
}

/// The directory to scan for a collection's downloaded files.
pub fn collection_search_dir(output_dir: &str, collection: &TrackCollection) -> (r: String)
    ensures
        r@ == search_dir_text(output_dir@, *collection),
{
    if collection.collection_type == CollectionType::Playlist {
        return owned(output_dir);
    }
    let artist = if collection.artists.len() > 0 {
        safe_component(collection.artists[0].as_str())
    } else {
        owned("Unknown Artist")
    };
    let mut v: Vec<char> = match &collection.date {
        Some(d) => {
            let cs = chars_of(d.as_str());
            let p = find_either(&cs, 0, '-', '-');
            assert(cs@.skip(0) =~= cs@);
            let y = chars_between(&cs, 0, p);
            assert(y@ =~= cs@.take(p as int));
            y
        },
        None => chars_of("0000"),
    };
    push_str_chars(&mut v, " - ");
    let album = safe_component(collection.title.as_str());
    push_str_chars(&mut v, album.as_str());
    assert(v@ =~= dir_year(collection.date) + " - "@ + safe_component_text(collection.title@));
    let name = string_from_chars(v.as_slice());
    let first = path_join(output_dir, artist.as_str());
    path_join(first.as_str(), name.as_str())
}

/// The first database row for `uri`, if any.
pub open spec fn first_row_for(rows: Seq<TrackRow>, uri: Seq<char>) -> Option<int>
    decreases rows.len(),
{
    if rows.len() == 0 {
        None
    } else if rows[0].uri@ == uri {
        Some(0)
    } else {
        match first_row_for(rows.drop_first(), uri) {
            Some(i) => Some(i + 1),
            None => None,
        }
    }
}

/// The title and duration listed for a track: from its first database row
/// (title falling back to the URI, duration to 0), or the URI and 0 when it
/// has no row.
pub open spec fn listed_title_duration(rows: Seq<TrackRow>, uri: Seq<char>) -> (Seq<char>, i32) {
    match first_row_for(rows, uri) {
        Some(i) => (
            match rows[i].title { Some(t) => t@, None => uri },
            match rows[i].duration_ms { Some(d) => d, None => 0 },
        ),
        None => (uri, 0),
    }
}

/// A playlist entry's view: path, title and duration.
pub open spec fn entry_view(e: TrackEntry) -> (Seq<char>, Seq<char>, i32) {
    (e.final_path@, e.title@, e.duration_ms)
}

/// The playlist entries of a collection, in track order: one for each track
/// whose file was found, with its title and duration from the database.
pub open spec fn listed_entries(uris: Seq<String>, found: Seq<Option<String>>, rows: Seq<TrackRow>) -> Seq<(Seq<char>, Seq<char>, i32)>
    decreases uris.len(),
{
    if uris.len() == 0 {
        Seq::empty()
    } else {
        let head = listed_entries(uris.drop_last(), found.take(uris.len() - 1), rows);
        match found[uris.len() - 1] {
            Some(p) => {
                let (t, d) = listed_title_duration(rows, uris.last()@);
                head.push((p@, t, d))
            },
            None => head,
        }
    }
}

fn row_for(rows: &Vec<TrackRow>, uri: &String) -> (r: Option<usize>)
    ensures
        match r {
            Some(i) => first_row_for(rows@, uri@) == Some(i as int) && i < rows@.len(),
            None => first_row_for(rows@, uri@) is None,
        },
{
    let mut i: usize = 0;
    while i < rows.len()
        invariant
            i <= rows.len(),
            forall|j: int| 0 <= j < i ==> rows@[j].uri@ != uri@,
        decreases rows.len() - i,
    {
        if rows[i].uri == *uri {
            proof {
                lemma_first_row_at(rows@, uri@, i as int);
            }
            return Some(i);
        }
        i = i + 1;
    }
    proof {
        lemma_no_row(rows@, uri@);
    }
    None
}

proof fn lemma_first_row_at(rows: Seq<TrackRow>, uri: Seq<char>, i: int)
    requires
        0 <= i < rows.len(),
        rows[i].uri@ == uri,
        forall|j: int| 0 <= j < i ==> rows[j].uri@ != uri,
    ensures
        first_row_for(rows, uri) == Some(i),
    decreases i,
{
    if i > 0 {
        let t = rows.drop_first();
        assert forall|j: int| 0 <= j < i - 1 implies t[j].uri@ != uri by {
            assert(t[j] == rows[j + 1]);
        }
        lemma_first_row_at(t, uri, i - 1);
    }
}

proof fn lemma_no_row(rows: Seq<TrackRow>, uri: Seq<char>)
    requires
        forall|j: int| 0 <= j < rows.len() ==> rows[j].uri@ != uri,
    ensures
        first_row_for(rows, uri) is None,
    decreases rows.len(),
{
    if rows.len() > 0 {
        let t = rows.drop_first();
        assert forall|j: int| 0 <= j < t.len() implies t[j].uri@ != uri by {
            assert(t[j] == rows[j + 1]);
        }
        lemma_no_row(t, uri);
    }
}

/// The views of playlist entries.
pub open spec fn entry_views(v: Seq<TrackEntry>) -> Seq<(Seq<char>, Seq<char>, i32)> {
    v.map_values(|e: TrackEntry| entry_view(e))
}

/// The playlist entries of a collection: `found[i]` is the downloaded file
/// of `track_uris[i]`, when one was found.
pub fn playlist_entries(track_uris: &Vec<String>, found: &Vec<Option<String>>, rows: &Vec<TrackRow>) -> (r: Vec<TrackEntry>)
    requires
        found@.len() == track_uris@.len(),
    ensures
        entry_views(r@) == listed_entries(track_uris@, found@, rows@),
{
    let mut out: Vec<TrackEntry> = Vec::new();
    let mut i: usize = 0;
    while i < track_uris.len()
        invariant
            i <= track_uris.len(),
            found@.len() == track_uris@.len(),
            entry_views(out@) == listed_entries(track_uris@.take(i as int), found@.take(i as int), rows@),
        decreases track_uris.len() - i,
    {
        let ghost before = entry_views(out@);
        assert(track_uris@.take(i + 1).drop_last() =~= track_uris@.take(i as int));
        assert(found@.take(i + 1).take(i as int) =~= found@.take(i as int));
        if let Some(p) = &found[i] {
            let uri = &track_uris[i];
            let (title, duration_ms) = match row_for(rows, uri) {
                Some(k) => {
                    let t = match &rows[k].title {
                        Some(t) => t.clone(),
                        None => uri.clone(),
                    };
                    let d = match rows[k].duration_ms {
                        Some(d) => d,
                        None => 0,
                    };
                    (t, d)
                },
                None => (uri.clone(), 0),
            };
            out.push(TrackEntry { final_path: p.clone(), title, duration_ms });
            assert(entry_views(out@) =~= before.push(entry_view(out@[out@.len() - 1])));
        }
        i = i + 1;
    }
    assert(track_uris@.take(track_uris.len() as int) =~= track_uris@);
    assert(found@.take(track_uris.len() as int) =~= found@);
    out
}

/// Where a collection's playlist goes: a directory named after the
/// collection under the output directory for playlists, else the
/// directory of the first listed file (or the output directory when that
/// has none).
pub open spec fn playlist_dir_text(output_dir: Seq<char>, c: TrackCollection, first_path: Seq<char>) -> Seq<char> {
    if c.collection_type == CollectionType::Playlist {
        joined(output_dir, safe_component_text(c.title@))
    } else {
        match parent_of(first_path) {
            Some(p) => p,
            None => output_dir,
        }
    }
}

/// The directory and file of a collection's playlist,
/// `{dir}/{safe title}.m3u8`.
pub fn playlist_location(output_dir: &str, collection: &TrackCollection, first_path: &str) -> (r: (String, String))
    ensures
        r.0@ == playlist_dir_text(output_dir@, *collection, first_path@),
        r.1@ == joined(r.0@, safe_component_text(collection.title@) + ".m3u8"@),
{
    let safe_title = safe_component(collection.title.as_str());
    let dir = if collection.collection_type == CollectionType::Playlist {
        path_join(output_dir, safe_title.as_str())
    } else {
        match path_parent(first_path) {
            Some(p) => p,
            None => owned(output_dir),
        }
    };
    let mut name: Vec<char> = chars_of(safe_title.as_str());
    push_str_chars(&mut name, ".m3u8");
    let file = string_from_chars(name.as_slice());
    let path = path_join(dir.as_str(), file.as_str());
    (dir, path)
}

/// What finalising a collection does.
#[derive(PartialEq, Eq, Structural, Clone, Copy, Debug)]
pub enum FinalisePlan {
    /// Single tracks and episodes get a cover beside the file, no playlist.
    CoverOnly,
    /// No track of the collection was downloaded: nothing is written.
    NothingDownloaded,
    /// Write the playlist and the cover.
    PlaylistAndCover,
}

/// How a complete collection is finalised, given how many of its tracks
/// were found on disk.
pub fn finalise_plan(kind: CollectionType, found_tracks: usize) -> (r: FinalisePlan)
    ensures
        r == (if kind == CollectionType::SingleTrack || kind == CollectionType::SingleEpisode {
            FinalisePlan::CoverOnly
        } else if found_tracks == 0 {
            FinalisePlan::NothingDownloaded
        } else {
            FinalisePlan::PlaylistAndCover
        }),
{
    match kind {
        CollectionType::SingleTrack | CollectionType::SingleEpisode => FinalisePlan::CoverOnly,
        _ => if found_tracks == 0 {
            FinalisePlan::NothingDownloaded
        } else {
            FinalisePlan::PlaylistAndCover
        },
    }
}

} // verus!
