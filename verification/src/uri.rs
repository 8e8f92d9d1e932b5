//! Spotify identifiers as users type them: `spotify:` URIs, web links,
//! bare track ids, and files listing one identifier per line.

use vstd::prelude::*;
use crate::container::CollectionType;
use crate::text::{
    chars_between, chars_of, find_either, first_pos, push_all, push_str_chars, starts_with_chars,
    string_from_chars, trim_chars, trim_ws,
};

verus! {

/// Prefix of Spotify web links.
pub open spec fn web_prefix() -> Seq<char> {
    "https://open.spotify.com/"@
}

/// The path of a web link after the prefix, with any query string (`?…`) or
/// fragment (`#…`) cut off.
pub open spec fn link_path(rest: Seq<char>) -> Seq<char> {
    rest.take(first_pos(rest, '?', '#') as int)
}

/// The first path segment (the item type), trimmed.
pub open spec fn link_item_type(path: Seq<char>) -> Seq<char> {
    trim_ws(path.take(first_pos(path, '/', '/') as int))
}

/// Everything after the first `/` (the item id), trimmed; empty when the
/// path has no `/`.
pub open spec fn link_item_id(path: Seq<char>) -> Seq<char> {
    let p = first_pos(path, '/', '/') as int;
    if p < path.len() {
        trim_ws(path.skip(p + 1))
    } else {
        Seq::empty()
    }
}

/// The `spotify:{type}:{id}` URI that `input` stands for: a `spotify:` URI
/// stands for itself; a web link `https://open.spotify.com/{type}/{id}`
/// (query and fragment ignored) for `spotify:{type}:{id}` when both parts
/// are non-empty; anything else for nothing.
pub open spec fn normalised_uri(input: Seq<char>) -> Option<Seq<char>> {
    if "spotify:"@.is_prefix_of(input) {
        Some(input)
    } else if web_prefix().is_prefix_of(input) {
        let path = link_path(input.skip(web_prefix().len() as int));
        let t = link_item_type(path);
        let id = link_item_id(path);
        if t.len() > 0 && id.len() > 0 {
            Some("spotify:"@ + t + ":"@ + id)
        } else {
            None
        }
    } else {
        None
    }
}

/// Normalising is idempotent: what an identifier normalises to is a
/// `spotify:` URI, which normalises to itself.
pub proof fn law_normalise_idempotent(input: Seq<char>)
    requires
        normalised_uri(input) is Some,
    ensures
        normalised_uri(normalised_uri(input)->0) == normalised_uri(input),
{
    reveal_strlit("spotify:");
    reveal_strlit("https://open.spotify.com/");
    let out = normalised_uri(input)->0;
    if !"spotify:"@.is_prefix_of(input) {
        let path = link_path(input.skip(web_prefix().len() as int));
        let t = link_item_type(path);
        let id = link_item_id(path);
        assert(out == "spotify:"@ + t + ":"@ + id);
        assert(out.subrange(0, 8) =~= "spotify:"@);
    }
    assert("spotify:"@.is_prefix_of(out));
}

/// Why an identifier could not be turned into a `spotify:` URI.
#[derive(Debug)]
pub enum UriError {
    /// A web link without both a type and an id.
    MalformedLink { input: String },
    /// Neither a `spotify:` URI nor a web link.
    Unrecognised { input: String },
}

impl UriError {
    /// The identifier that was refused.
    pub fn input(&self) -> (r: &String)
        ensures
            r == (match self {
                UriError::MalformedLink { input } => input,
                UriError::Unrecognised { input } => input,
            }),
    {
        match self {
            UriError::MalformedLink { input } => input,
            UriError::Unrecognised { input } => input,
        }
    }
}

/// Converts an `https://open.spotify.com/{type}/{id}` link to a
/// `spotify:{type}:{id}` URI, dropping any query string or fragment first.
/// Inputs that are already `spotify:` URIs come back unchanged.
pub fn normalise_uri(input: &str) -> (r: Result<String, UriError>)
    ensures
        match r {
            Ok(s) => normalised_uri(input@) == Some(s@),
            Err(e) => normalised_uri(input@) is None
                && (e is MalformedLink <==> web_prefix().is_prefix_of(input@))
                && (match e {
                    UriError::MalformedLink { input: i } => i@ == input@,
                    UriError::Unrecognised { input: i } => i@ == input@,
                }),
        },
{
    let v = chars_of(input);
    let scheme = chars_of("spotify:");
    if starts_with_chars(&v, &scheme) {
        return Ok(string_from_chars(v.as_slice()));
    }
    let web = chars_of("https://open.spotify.com/");
    proof {
        reveal_strlit("https://open.spotify.com/");
        reveal_strlit("spotify:");
    }
    if !starts_with_chars(&v, &web) {
        return Err(UriError::Unrecognised { input: string_from_chars(v.as_slice()) });
    }
    let start = web.len();
    let cut = find_either(&v, start, '?', '#');
    let ghost rest = v@.skip(start as int);
    let path = chars_between(&v, start, start + cut);
    assert(path@ == link_path(rest)) by {
        assert(path@ =~= rest.take(cut as int));
    }
    let slash = find_either(&path, 0, '/', '/');
    assert(path@.skip(0) =~= path@);
    let type_raw = chars_between(&path, 0, slash);
    assert(type_raw@ =~= path@.take(slash as int));
    let item_type = trim_chars(&type_raw);
    let item_id = if slash < path.len() {
        let id_raw = chars_between(&path, slash + 1, path.len());
        assert(id_raw@ =~= path@.skip(slash + 1));
        trim_chars(&id_raw)
    } else {
        Vec::new()
    };
    assert(item_id@ == link_item_id(path@));
    if item_type.len() == 0 || item_id.len() == 0 {
        return Err(UriError::MalformedLink { input: string_from_chars(v.as_slice()) });
    }
    let mut out: Vec<char> = Vec::new();
    push_str_chars(&mut out, "spotify:");
    push_all(&mut out, &item_type);
    push_str_chars(&mut out, ":");
    push_all(&mut out, &item_id);
    Ok(string_from_chars(out.as_slice()))
}

/// The URI text that a command-line argument stands for: a `spotify:` URI as
/// it is, anything else taken as a bare track id.
pub open spec fn argument_uri(arg: Seq<char>) -> Seq<char> {
    if "spotify:"@.is_prefix_of(arg) {
        arg
    } else {
        "spotify:track:"@ + arg
    }
}

/// The URI text handed to Spotify's URI parser for a command-line argument:
/// `spotify:` URIs unchanged, anything else as `spotify:track:{arg}`.
pub fn spotify_uri_text(uri_arg: &str) -> (r: String)
    ensures
        r@ == argument_uri(uri_arg@),
{
    let v = chars_of(uri_arg);
    let scheme = chars_of("spotify:");
    if starts_with_chars(&v, &scheme) {
        string_from_chars(v.as_slice())
    } else {
        let mut out: Vec<char> = Vec::new();
        push_str_chars(&mut out, "spotify:track:");
        push_all(&mut out, &v);
        string_from_chars(out.as_slice())
    }
}

/// What librespot reads from a URI text: the item type
/// (`SpotifyUri::item_type`) and the id (`SpotifyUri::to_id`) of
/// `SpotifyUri::from_uri(text)`, or `None` when the text does not parse. It
/// depends on the text alone.
pub uninterp spec fn uri_parts(text: Seq<char>) -> Option<(Seq<char>, Seq<char>)>;

/// `librespot_core::SpotifyUri::from_uri(text)`, taken apart into its item
/// type and id; `None` when parsing (or rendering the id) fails. Claimed:
/// the result is the named value `uri_parts(text)`.
#[verifier::external_body]
fn spotify_uri_parts(text: &str) -> (r: Option<(String, String)>)
    ensures
        match r {
            Some((t, i)) => uri_parts(text@) == Some((t@, i@)),
            None => uri_parts(text@) is None,
        },
{
    match librespot_core::SpotifyUri::from_uri(text) {
        Ok(u) => match u.to_id() {
            Ok(id) => Some((u.item_type().to_string(), id)),
            Err(_) => None,
        },
        Err(_) => None,
    }
}

/// A Spotify item as librespot reads it from a URI: its item type (such as
/// `track`) and its id.
#[derive(Debug)]
pub struct SpotifyItem {
    pub item_type: String,
    pub id: String,
}

/// Why a command-line argument is not a Spotify URI.
#[derive(Debug)]
pub enum UriParseError {
    /// A `spotify:` URI that Spotify's parser refused.
    InvalidUri { arg: String },
    /// A bare id that does not make a valid track URI.
    InvalidTrackId { arg: String },
}

/// Parses a command-line argument as a Spotify URI: `spotify:` URIs as they
/// are, anything else as the id of a track.
pub fn parse_spotify_uri(uri_arg: &str) -> (r: Result<SpotifyItem, UriParseError>)
    ensures
        r is Ok <==> uri_parts(argument_uri(uri_arg@)) is Some,
        r matches Ok(p) ==> uri_parts(argument_uri(uri_arg@)) == Some((p.item_type@, p.id@)),
        r matches Err(UriParseError::InvalidUri { arg }) ==> "spotify:"@.is_prefix_of(uri_arg@) && arg@ == uri_arg@,
        r matches Err(UriParseError::InvalidTrackId { arg }) ==> !"spotify:"@.is_prefix_of(uri_arg@) && arg@ == uri_arg@,
{
    let text = spotify_uri_text(uri_arg);
    let v = chars_of(uri_arg);
    let scheme = chars_of("spotify:");
    let is_uri = starts_with_chars(&v, &scheme);
    match spotify_uri_parts(text.as_str()) {
        Some((item_type, id)) => Ok(SpotifyItem { item_type, id }),
        None => {
            let arg = string_from_chars(v.as_slice());
            if is_uri {
                Err(UriParseError::InvalidUri { arg })
            } else {
                Err(UriParseError::InvalidTrackId { arg })
            }
        },
    }
}

/// The identifiers listed in a text, one per line: each line trimmed, blank
/// lines and lines starting with `#` skipped, order kept.
pub open spec fn listed_uris(s: Seq<char>) -> Seq<Seq<char>>
    decreases s.len(),
{
    let p = first_pos(s, '\n', '\n') as int;
    let line = trim_ws(s.take(p));
    let rest = if p < s.len() {
        listed_uris(s.skip(p + 1))
    } else {
        Seq::empty()
    };
    if line.len() > 0 && line[0] != '#' {
        seq![line] + rest
    } else {
        rest
    }
}

/// Every identifier read from a text is a non-blank line that is not a
/// `#` comment.
pub proof fn law_listed_uris_are_entries(s: Seq<char>)
    ensures
        forall|i: int| 0 <= i < listed_uris(s).len()
            ==> (#[trigger] listed_uris(s)[i]).len() > 0 && listed_uris(s)[i][0] != '#',
    decreases s.len(),
{
    let p = first_pos(s, '\n', '\n') as int;
    let line = trim_ws(s.take(p));
    if p < s.len() {
        law_listed_uris_are_entries(s.skip(p + 1));
    }
    let rest = if p < s.len() { listed_uris(s.skip(p + 1)) } else { Seq::<Seq<char>>::empty() };
    if line.len() > 0 && line[0] != '#' {
        assert forall|i: int| 0 <= i < listed_uris(s).len() implies
            (#[trigger] listed_uris(s)[i]).len() > 0 && listed_uris(s)[i][0] != '#' by {
            if i > 0 {
                assert(listed_uris(s)[i] == rest[i - 1]);
            }
        }
    }
}

/// The views of a list of strings.
pub open spec fn string_views(v: Seq<String>) -> Seq<Seq<char>> {
    v.map_values(|s: String| s@)
}

/// The identifiers listed in `content`, one per line (blank lines and `#`
/// comments skipped), or `None` when it lists none.
pub fn uris_from_text(content: &str) -> (r: Option<Vec<String>>)
    ensures
        match r {
            Some(v) => string_views(v@) == listed_uris(content@) && v@.len() > 0,
            None => listed_uris(content@).len() == 0,
        },
{
    let v = chars_of(content);
    let mut out: Vec<String> = Vec::new();
    let mut pos: usize = 0;
    assert(v@.skip(0) =~= v@);
    assert(string_views(out@) + listed_uris(v@) =~= listed_uris(v@));
    while pos < v.len()
        invariant
            pos <= v.len(),
            string_views(out@) + listed_uris(v@.skip(pos as int)) == listed_uris(v@),
        decreases v.len() - pos,
    {
        let ghost s = v@.skip(pos as int);
        let p = find_either(&v, pos, '\n', '\n');
        let raw = chars_between(&v, pos, pos + p);
        assert(raw@ =~= s.take(p as int));
        let line = trim_chars(&raw);
        let ghost rest = if p < s.len() { listed_uris(s.skip(p + 1)) } else { Seq::<Seq<char>>::empty() };
        let ghost before = string_views(out@);
        if line.len() > 0 && line[0] != '#' {
            out.push(string_from_chars(line.as_slice()));
            assert(string_views(out@) =~= before.push(line@));
            assert(listed_uris(s) == seq![line@] + rest);
            assert(before + listed_uris(s) =~= string_views(out@) + rest);
        } else {
            assert(listed_uris(s) == rest);
        }
        if pos + p < v.len() {
            assert(s.skip(p + 1) =~= v@.skip(pos + p + 1));
            pos = pos + p + 1;
        } else {
            assert(v@.skip(v.len() as int) =~= Seq::<char>::empty());
            pos = v.len();
        }
    }
    assert(v@.skip(pos as int) =~= Seq::<char>::empty());
    assert(listed_uris(Seq::<char>::empty()) =~= Seq::<Seq<char>>::empty());
    assert(string_views(out@) + Seq::<Seq<char>>::empty() =~= string_views(out@));
    if out.len() == 0 {
        None
    } else {
        Some(out)
    }
}

/// What std's `str::to_lowercase` gives for `s`; it depends on `s` alone.
pub uninterp spec fn lowercased(s: Seq<char>) -> Seq<char>;

/// `c` with `A` to `Z` turned into `a` to `z`.
pub open spec fn ascii_lower_char(c: char) -> char {
    if 'A' <= c && c <= 'Z' {
        ((c as u32) + 32) as char
    } else {
        c
    }
}

/// Every character of `s` is ASCII.
pub open spec fn all_ascii(s: Seq<char>) -> bool {
    forall|i: int| 0 <= i < s.len() ==> (s[i] as u32) < 128
}

/// std's `str::to_lowercase`. Claimed: the result is the named value
/// `lowercased(s)`, and on ASCII text it lowers `A` to `Z` and keeps every
/// other character, as Unicode's lowercase mapping does there. Its tables
/// beyond ASCII are not stated.
#[verifier::external_body]
fn to_lowercase(s: &str) -> (r: String)
    ensures
        r@ == lowercased(s@),
        all_ascii(s@) ==> r@ == s@.map_values(|c: char| ascii_lower_char(c)),
{
    s.to_lowercase()
}

/// The collection kind for a lower-cased item type name.
pub open spec fn kind_for_item(t: Seq<char>) -> Option<CollectionType> {
    if t == "album"@ {
        Some(CollectionType::Album)
    } else if t == "playlist"@ {
        Some(CollectionType::Playlist)
    } else if t == "show"@ {
        Some(CollectionType::Show)
    } else if t == "track"@ {
        Some(CollectionType::SingleTrack)
    } else if t == "episode"@ {
        Some(CollectionType::SingleEpisode)
    } else {
        None
    }
}

/// The collection kind that a URI's item type (`album`, `playlist`, `show`,
/// `track` or `episode`, in any letter case) resolves to; `None` for any
/// other item type.
pub fn to_collection_type(item_type: &str) -> (r: Option<CollectionType>)
    ensures
        r == kind_for_item(lowercased(item_type@)),
        all_ascii(item_type@) ==> r == kind_for_item(item_type@.map_values(|c: char| ascii_lower_char(c))),
{
    let lower = to_lowercase(item_type);
    if lower == String::from_str("album") {
        Some(CollectionType::Album)
    } else if lower == String::from_str("playlist") {
        Some(CollectionType::Playlist)
    } else if lower == String::from_str("show") {
        Some(CollectionType::Show)
    } else if lower == String::from_str("track") {
        Some(CollectionType::SingleTrack)
    } else if lower == String::from_str("episode") {
        Some(CollectionType::SingleEpisode)
    } else {
        None
    }
}

/// The kinds of single item whose track metadata can be fetched.
#[derive(PartialEq, Eq, Structural, Clone, Copy, Debug)]
pub enum TrackItemKind {
    Track,
    Episode,
}

/// Which kind of single item a URI's item type names: `track` or `episode`
/// exactly; `None` for any other item type.
pub fn track_item_kind(item_type: &str) -> (r: Option<TrackItemKind>)
    ensures
        r == (if item_type@ == "track"@ {
            Some(TrackItemKind::Track)
        } else if item_type@ == "episode"@ {
            Some(TrackItemKind::Episode)
        } else {
            None
        }),
{
    let t = crate::text::owned(item_type);
    if t == String::from_str("track") {
        Some(TrackItemKind::Track)
    } else if t == String::from_str("episode") {
        Some(TrackItemKind::Episode)
    } else {
        None
    }
}

} // verus!
