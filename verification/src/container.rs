//! Tracks and track collections as the rest of the library sees them.

use vstd::prelude::*;

verus! {

/// What kind of Spotify item a collection was resolved from.
#[derive(PartialEq, Eq, Structural, Clone, Copy, Debug)]
pub enum CollectionType {
    Album,
    Playlist,
    Show,
    SingleTrack,
    SingleEpisode,
}

/// One track (or podcast episode) with its metadata.
#[derive(Debug)]
pub struct Track {
    pub uri_str: String,
    pub title: String,
    pub artists: Vec<String>,
    pub cover_id: Option<String>,
    pub isrc: Option<String>,
    pub duration_ms: i32,
    pub disc_number: Option<i32>,
    pub number: Option<i32>,
    pub date: Option<String>,
    pub explicit: bool,
    pub language: Vec<String>,
}

/// An album, playlist, show or single item, with the URIs of its tracks in
/// order.
#[derive(Debug)]
pub struct TrackCollection {
    pub uri_str: String,
    pub collection_type: CollectionType,
    pub title: String,
    pub artists: Vec<String>,
    pub cover_id: Option<String>,
    pub upc: Option<String>,
    pub total_tracks: usize,
    pub label: Option<String>,
    pub date: Option<String>,
    pub track_uris: Vec<String>,
}

/// The abstract value of a [`Track`]: its fields, with lists taken as
/// sequences.
pub struct TrackView {
    pub uri_str: String,
    pub title: String,
    pub artists: Seq<String>,
    pub cover_id: Option<String>,
    pub isrc: Option<String>,
    pub duration_ms: i32,
    pub disc_number: Option<i32>,
    pub number: Option<i32>,
    pub date: Option<String>,
    pub explicit: bool,
    pub language: Seq<String>,
}

impl View for Track {
    type V = TrackView;

    open spec fn view(&self) -> TrackView {
        TrackView {
            uri_str: self.uri_str,
            title: self.title,
            artists: self.artists@,
            cover_id: self.cover_id,
            isrc: self.isrc,
            duration_ms: self.duration_ms,
            disc_number: self.disc_number,
            number: self.number,
            date: self.date,
            explicit: self.explicit,
            language: self.language@,
        }
    }
}

/// The abstract value of a [`TrackCollection`]: its fields, with lists taken
/// as sequences.
pub struct CollectionView {
    pub uri_str: String,
    pub collection_type: CollectionType,
    pub title: String,
    pub artists: Seq<String>,
    pub cover_id: Option<String>,
    pub upc: Option<String>,
    pub total_tracks: usize,
    pub label: Option<String>,
    pub date: Option<String>,
    pub track_uris: Seq<String>,
}

impl View for TrackCollection {
    type V = CollectionView;

    open spec fn view(&self) -> CollectionView {
        CollectionView {
            uri_str: self.uri_str,
            collection_type: self.collection_type,
            title: self.title,
            artists: self.artists@,
            cover_id: self.cover_id,
            upc: self.upc,
            total_tracks: self.total_tracks,
            label: self.label,
            date: self.date,
            track_uris: self.track_uris@,
        }
    }
}

/// A copy of a list of strings.
pub fn copy_strings(v: &Vec<String>) -> (r: Vec<String>)
    ensures
        r@ == v@,
{
    let mut r: Vec<String> = Vec::new();
    let mut i: usize = 0;
    while i < v.len()
        invariant
            i <= v.len(),
            r@ == v@.take(i as int),
        decreases v.len() - i,
    {
        r.push(v[i].clone());
        i = i + 1;
        assert(r@ == v@.take(i as int));
    }
    assert(v@.take(v.len() as int) == v@);
    r
}

/// A copy of an optional string.
pub fn copy_opt_string(o: &Option<String>) -> (r: Option<String>)
    ensures
        r == *o,
{
    match o {
        Some(s) => Some(s.clone()),
        None => None,
    }
}

impl Clone for Track {
    fn clone(&self) -> (r: Self)
        ensures
            r@ == self@,
    {
        Track {
            uri_str: self.uri_str.clone(),
            title: self.title.clone(),
            artists: copy_strings(&self.artists),
            cover_id: copy_opt_string(&self.cover_id),
            isrc: copy_opt_string(&self.isrc),
            duration_ms: self.duration_ms,
            disc_number: self.disc_number,
            number: self.number,
            date: copy_opt_string(&self.date),
            explicit: self.explicit,
            language: copy_strings(&self.language),
        }
    }
}

impl Clone for TrackCollection {
    fn clone(&self) -> (r: Self)
        ensures
            r@ == self@,
    {
        TrackCollection {
            uri_str: self.uri_str.clone(),
            collection_type: self.collection_type,
            title: self.title.clone(),
            artists: copy_strings(&self.artists),
            cover_id: copy_opt_string(&self.cover_id),
            upc: copy_opt_string(&self.upc),
            total_tracks: self.total_tracks,
            label: copy_opt_string(&self.label),
            date: copy_opt_string(&self.date),
            track_uris: copy_strings(&self.track_uris),
        }
    }
}

} // verus!
