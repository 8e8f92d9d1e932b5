//! Plain M3U playlists with `#EXTINF:{seconds},{artist} - {title}` entries
//! and forward-slash paths relative to the playlist file.

use vstd::prelude::*;
use crate::cache::{artist_name, get_artist_name_from_vec};
use crate::paths::{parent_of, path_parent};
use crate::playlist::line;
use crate::text::{chars_of, push_signed_decimal, push_str_chars, signed_decimal, string_from_chars};

verus! {

/// One entry of a playlist.
#[derive(Debug)]
pub struct M3uEntry {
    /// Duration in seconds (-1 if unknown).
    pub duration: i32,
    /// Artist name.
    pub artist: String,
    /// Track title.
    pub title: String,
    /// Path of the audio file.
    pub file_path: String,
}

impl Clone for M3uEntry {
    fn clone(&self) -> (r: Self)
        ensures
            r == *self,
    {
        M3uEntry {
            duration: self.duration,
            artist: self.artist.clone(),
            title: self.title.clone(),
            file_path: self.file_path.clone(),
        }
    }
}

/// What `pathdiff::diff_paths(path, base)` gives: the path leading from
/// `base` to `path`, when there is one.
pub uninterp spec fn path_diff(path: Seq<char>, base: Seq<char>) -> Option<Seq<char>>;

/// `pathdiff::diff_paths(path, base)`, as text. Claimed: the result is the
/// named value `path_diff(path, base)`.
#[verifier::external_body]
fn diff_paths(path: &str, base: &str) -> (r: Option<String>)
    ensures
        match r {
            Some(p) => path_diff(path@, base@) == Some(p@),
            None => path_diff(path@, base@) is None,
        },
{
    pathdiff::diff_paths(path, base).map(|p| p.to_string_lossy().into_owned())
}

/// Why a playlist could not be written.
#[derive(Debug)]
pub enum M3uError {
    /// The playlist path has no parent directory.
    NoParentDirectory,
    /// No relative path leads from the playlist's directory to the file.
    NoRelativePath { file_path: String },
}

/// The relative path from the directory of playlist `from` to file `to`.
pub open spec fn relative_from_playlist(from: Seq<char>, to: Seq<char>) -> Option<Seq<char>> {
    match parent_of(from) {
        Some(dir) => path_diff(to, dir),
        None => None,
    }
}

/// The path from the directory holding the playlist `from` to the file
/// `to`.
pub fn calculate_relative_path(from: &str, to: &str) -> (r: Result<String, M3uError>)
    ensures
        match r {
            Ok(p) => relative_from_playlist(from@, to@) == Some(p@),
            Err(M3uError::NoParentDirectory) => parent_of(from@) is None,
            Err(M3uError::NoRelativePath { file_path }) => parent_of(from@) is Some
                && relative_from_playlist(from@, to@) is None && file_path@ == to@,
        },
{
    let dir = match path_parent(from) {
        Some(d) => d,
        None => return Err(M3uError::NoParentDirectory),
    };
    match diff_paths(to, dir.as_str()) {
        Some(p) => Ok(p),
        None => Err(M3uError::NoRelativePath { file_path: string_from_chars(chars_of(to).as_slice()) }),
    }
}

/// `s` with every backslash turned into a forward slash.
pub open spec fn forward_slashes(s: Seq<char>) -> Seq<char> {
    s.map_values(|c: char| if c == '\\' { '/' } else { c })
}

/// The two lines of one entry, given its path relative to the playlist.
pub open spec fn m3u_entry_lines(e: M3uEntry, rel: Seq<char>) -> Seq<char> {
    line("#EXTINF:"@ + signed_decimal(e.duration as int) + ","@ + e.artist@ + " - "@ + e.title@)
        + line(forward_slashes(rel))
}

/// The playlist text, or `None` when some entry has no relative path.
pub open spec fn m3u_text_spec(playlist: Seq<char>, entries: Seq<M3uEntry>, url: Option<Seq<char>>) -> Option<Seq<char>>
    decreases entries.len(),
{
    if entries.len() == 0 {
        Some(line("#EXTM3U"@) + match url { Some(u) => line("# Source: "@ + u), None => Seq::empty() })
    } else {
        match m3u_text_spec(playlist, entries.drop_last(), url) {
            Some(head) => match relative_from_playlist(playlist, entries.last().file_path@) {
                Some(rel) => Some(head + m3u_entry_lines(entries.last(), rel)),
                None => None,
            },
            None => None,
        }
    }
}

fn forward_slash_chars(s: &str) -> (r: Vec<char>)
    ensures
        r@ == forward_slashes(s@),
{
    let v = chars_of(s);
    let mut out: Vec<char> = Vec::new();
    let mut i: usize = 0;
    while i < v.len()
        invariant
            i <= v.len(),
            out@ == forward_slashes(v@.take(i as int)),
        decreases v.len() - i,
    {
        let c = v[i];
        out.push(if c == '\\' { '/' } else { c });
        i = i + 1;
        assert(out@ =~= forward_slashes(v@.take(i as int)));
    }
    assert(v@.take(v.len() as int) =~= v@);
    out
}

/// The text of a playlist kept at `playlist_path`: `#EXTM3U`, an optional
/// `# Source:` line, then per entry `#EXTINF:{duration},{artist} - {title}`
/// and the file's path relative to the playlist, with forward slashes.
pub fn m3u_text(playlist_path: &str, entries: &Vec<M3uEntry>, spotify_url: Option<&str>)
    -> (r: Result<String, M3uError>)
    ensures
        match r {
            Ok(t) => m3u_text_spec(playlist_path@, entries@, match spotify_url { Some(u) => Some(u@), None => None }) == Some(t@),
            Err(_) => m3u_text_spec(playlist_path@, entries@, match spotify_url { Some(u) => Some(u@), None => None }) is None,
        },
{
    let ghost url = match spotify_url { Some(u) => Some(u@), None => None::<Seq<char>> };
    let mut v: Vec<char> = Vec::new();
    push_str_chars(&mut v, "#EXTM3U");
    push_str_chars(&mut v, "\n");
    if let Some(u) = spotify_url {
        push_str_chars(&mut v, "# Source: ");
        push_str_chars(&mut v, u);
        push_str_chars(&mut v, "\n");
    }
    assert(Some(v@) == m3u_text_spec(playlist_path@, entries@.take(0), url)) by {
        assert(entries@.take(0).len() == 0);
        if let Some(u) = spotify_url {
            assert(v@ =~= line("#EXTM3U"@) + line("# Source: "@ + u@));
        } else {
            assert(v@ =~= line("#EXTM3U"@) + Seq::<char>::empty());
        }
    }
    let mut i: usize = 0;
    while i < entries.len()
        invariant
            i <= entries.len(),
            url == (match spotify_url { Some(u) => Some(u@), None => None::<Seq<char>> }),
            m3u_text_spec(playlist_path@, entries@.take(i as int), url) == Some(v@),
        decreases entries.len() - i,
    {
        let ghost before = v@;
        assert(entries@.take(i + 1).drop_last() =~= entries@.take(i as int));
        let e = &entries[i];
        let rel = match calculate_relative_path(playlist_path, e.file_path.as_str()) {
            Ok(p) => p,
            Err(err) => {
                assert(m3u_text_spec(playlist_path@, entries@.take(i + 1), url) is None);
                proof {
                    lemma_m3u_none_extends(playlist_path@, entries@, url, i + 1);
                }
                return Err(err);
            },
        };
        push_str_chars(&mut v, "#EXTINF:");
        push_signed_decimal(&mut v, e.duration as i64);
        push_str_chars(&mut v, ",");
        push_str_chars(&mut v, e.artist.as_str());
        push_str_chars(&mut v, " - ");
        push_str_chars(&mut v, e.title.as_str());
        push_str_chars(&mut v, "\n");
        let fs = forward_slash_chars(rel.as_str());
        crate::text::push_all(&mut v, &fs);
        push_str_chars(&mut v, "\n");
        assert(v@ =~= before + m3u_entry_lines(*e, rel@));
        i = i + 1;
    }
    assert(entries@.take(entries.len() as int) =~= entries@);
    Ok(string_from_chars(v.as_slice()))
}

proof fn lemma_m3u_none_extends(p: Seq<char>, entries: Seq<M3uEntry>, url: Option<Seq<char>>, k: int)
    requires
        0 <= k <= entries.len(),
        m3u_text_spec(p, entries.take(k), url) is None,
    ensures
        m3u_text_spec(p, entries, url) is None,
    decreases entries.len() - k,
{
    if k < entries.len() {
        assert(entries.take(k + 1).drop_last() =~= entries.take(k));
        lemma_m3u_none_extends(p, entries, url, k + 1);
    } else {
        assert(entries.take(k) =~= entries);
    }
}

/// A playlist entry for a track: its length in whole seconds, its first
/// artist (or `Unknown Artist`), its name and where it is stored.
pub fn build_m3u_entry(artist_names: &Vec<String>, duration_ms: u32, name: String, output_path: String) -> (r: M3uEntry)
    ensures
        r.duration == duration_ms / 1000,
        r.artist@ == artist_name(artist_names@),
        r.title == name,
        r.file_path == output_path,
{
    M3uEntry {
        duration: (duration_ms / 1000) as i32,
        artist: get_artist_name_from_vec(artist_names),
        title: name,
        file_path: output_path,
    }
}

} // verus!
