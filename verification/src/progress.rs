//! Progress reports of the command-line processor: what each step of
//! handling a track, album or playlist announces.

use vstd::prelude::*;
use crate::text::{owned, push_str_chars, string_from_chars};

verus! {

/// What a progress report is about.
#[derive(PartialEq, Eq, Structural, Clone, Copy, Debug)]
pub enum ProgressScope {
    Track,
    Album,
    Playlist,
    Global,
}

/// One progress report.
#[derive(Debug)]
pub struct ProgressUpdate {
    pub task_id: u128,
    pub scope: ProgressScope,
    pub status: String,
    pub current: u32,
    pub total: u32,
    pub item: String,
    pub url: Option<String>,
}

/// The kinds of Spotify URI the processor tells apart.
#[derive(PartialEq, Eq, Structural, Clone, Copy, Debug)]
pub enum UriKind {
    Track,
    Album,
    Playlist,
    Other,
}

/// The kind of a URI by its item type: `track`, `album` and `playlist`
/// exactly, anything else `Other`.
pub fn uri_kind(item_type: &str) -> (r: UriKind)
    ensures
        r == (if item_type@ == "track"@ {
            UriKind::Track
        } else if item_type@ == "album"@ {
            UriKind::Album
        } else if item_type@ == "playlist"@ {
            UriKind::Playlist
        } else {
            UriKind::Other
        }),
{
    let t = owned(item_type);
    if t == String::from_str("track") {
        UriKind::Track
    } else if t == String::from_str("album") {
        UriKind::Album
    } else if t == String::from_str("playlist") {
        UriKind::Playlist
    } else {
        UriKind::Other
    }
}

/// The scope a URI kind is processed under; other kinds are not supported.
pub open spec fn scope_of(kind: UriKind) -> Option<ProgressScope> {
    match kind {
        UriKind::Track => Some(ProgressScope::Track),
        UriKind::Album => Some(ProgressScope::Album),
        UriKind::Playlist => Some(ProgressScope::Playlist),
        UriKind::Other => None,
    }
}

/// The scope to process a URI under, or `None` for unsupported kinds (only
/// tracks, albums and playlists are).
pub fn scope_for(kind: UriKind) -> (r: Option<ProgressScope>)
    ensures
        r == scope_of(kind),
{
    match kind {
        UriKind::Track => Some(ProgressScope::Track),
        UriKind::Album => Some(ProgressScope::Album),
        UriKind::Playlist => Some(ProgressScope::Playlist),
        UriKind::Other => None,
    }
}

/// The word for a scope in the `Fetching …` message.
pub open spec fn scope_word(s: ProgressScope) -> Seq<char> {
    match s {
        ProgressScope::Track => "track"@,
        ProgressScope::Album => "album"@,
        ProgressScope::Playlist => "playlist"@,
        ProgressScope::Global => "items"@,
    }
}

/// The first report of a URI: `Fetching {track|album|playlist}`, step 0 of
/// 1, naming the argument as given.
pub fn fetching_update(task_id: u128, scope: ProgressScope, uri_arg: &str) -> (r: ProgressUpdate)
    ensures
        r.task_id == task_id,
        r.scope == scope,
        r.status@ == "Fetching "@ + scope_word(scope),
        r.current == 0,
        r.total == 1,
        r.item@ == uri_arg@,
        r.url is None,
{
    let mut v: Vec<char> = Vec::new();
    push_str_chars(&mut v, "Fetching ");
    match scope {
        ProgressScope::Track => push_str_chars(&mut v, "track"),
        ProgressScope::Album => push_str_chars(&mut v, "album"),
        ProgressScope::Playlist => push_str_chars(&mut v, "playlist"),
        ProgressScope::Global => push_str_chars(&mut v, "items"),
    }
    ProgressUpdate {
        task_id,
        scope,
        status: string_from_chars(v.as_slice()),
        current: 0,
        total: 1,
        item: owned(uri_arg),
        url: None,
    }
}

/// The report once a track's metadata is known: `Downloading`, step 1 of
/// 1, naming it `Track: {name}`.
pub fn downloading_update(task_id: u128, track_name: &str) -> (r: ProgressUpdate)
    ensures
        r.task_id == task_id,
        r.scope == ProgressScope::Track,
        r.status@ == "Downloading"@,
        r.current == 1,
        r.total == 1,
        r.item@ == "Track: "@ + track_name@,
        r.url is None,
{
    let mut v: Vec<char> = Vec::new();
    push_str_chars(&mut v, "Track: ");
    push_str_chars(&mut v, track_name);
    ProgressUpdate {
        task_id,
        scope: ProgressScope::Track,
        status: owned("Downloading"),
        current: 1,
        total: 1,
        item: string_from_chars(v.as_slice()),
        url: None,
    }
}

/// The last report of a URI: `Completed`, step 1 of 1.
pub fn completed_update(task_id: u128, scope: ProgressScope, item: &str) -> (r: ProgressUpdate)
    ensures
        r.task_id == task_id,
        r.scope == scope,
        r.status@ == "Completed"@,
        r.current == 1,
        r.total == 1,
        r.item@ == item@,
        r.url is None,
{
    ProgressUpdate {
        task_id,
        scope,
        status: owned("Completed"),
        current: 1,
        total: 1,
        item: owned(item),
        url: None,
    }
}


/// How a run over several URIs reports and ends.
#[derive(PartialEq, Eq, Structural, Clone, Copy, Debug)]
pub struct RunSummary {
    /// Announce `Processing {i} of {n}` before each URI.
    pub show_progress: bool,
    /// Print the closing summary of successes and failures.
    pub show_summary: bool,
    /// The run as a whole fails.
    pub all_failed: bool,
}

/// The report plan of a run over `total` URIs of which `successful` went
/// through and `failed` did not: per-URI progress when there is more than
/// one, a summary when there is more than one or any failed, and failure of
/// the whole run only when nothing succeeded and something failed.
pub fn run_summary(total: usize, successful: usize, failed: usize) -> (r: RunSummary)
    ensures
        r.show_progress == (total > 1),
        r.show_summary == (total > 1 || failed > 0),
        r.all_failed == (successful == 0 && failed > 0),
{
    RunSummary {
        show_progress: total > 1,
        show_summary: total > 1 || failed > 0,
        all_failed: successful == 0 && failed > 0,
    }
}

} // verus!
