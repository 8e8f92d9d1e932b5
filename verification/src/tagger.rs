//! Which tags a downloaded file receives: the text items, numbers, artists
//! and cover picture derived from a track and its collection, and the tag
//! format a file gets when it has none yet.

use vstd::prelude::*;
use crate::container::{Track, TrackCollection};
use crate::output_path::{chars_before, utf8_size};
use crate::text::{chars_of, owned, push_str_chars, string_from_chars};

verus! {

/// Audio container kinds, as the tagging library tells them apart.
#[derive(PartialEq, Eq, Structural, Clone, Copy, Debug)]
pub enum AudioFileType {
    Aac,
    Aiff,
    Ape,
    Flac,
    Mpeg,
    Mp4,
    Mpc,
    Opus,
    Vorbis,
    Speex,
    Wav,
    WavPack,
    Other,
}

/// Tag formats.
#[derive(PartialEq, Eq, Structural, Clone, Copy, Debug)]
pub enum TagType {
    VorbisComments,
    Mp4Ilst,
    Id3v2,
}

/// The tag format for a file that has no tag yet: Vorbis comments for FLAC,
/// Opus, Vorbis and Speex, iTunes `ilst` for MP4, ID3v2 for anything else.
pub open spec fn primary_tag_type(t: AudioFileType) -> TagType {
    match t {
        AudioFileType::Flac | AudioFileType::Opus | AudioFileType::Vorbis | AudioFileType::Speex => TagType::VorbisComments,
        AudioFileType::Mp4 => TagType::Mp4Ilst,
        _ => TagType::Id3v2,
    }
}

/// Picks the tag format for a file that has no tag yet.
pub fn primary_tag_type_for(t: AudioFileType) -> (r: TagType)
    ensures
        r == primary_tag_type(t),
{
    match t {
        AudioFileType::Flac | AudioFileType::Opus | AudioFileType::Vorbis | AudioFileType::Speex => TagType::VorbisComments,
        AudioFileType::Mp4 => TagType::Mp4Ilst,
        _ => TagType::Id3v2,
    }
}

/// Text tag fields.
#[derive(PartialEq, Eq, Structural, Clone, Copy, Debug)]
pub enum TagKey {
    RecordingDate,
    Year,
    Isrc,
    Label,
    Barcode,
    AudioSourceUrl,
    Comment,
    ParentalAdvisory,
    Language,
}

/// One text tag: a field and its value.
#[derive(Debug)]
pub struct TextTag {
    pub key: TagKey,
    pub value: String,
}

/// Everything written into a file's tag.
#[derive(Debug)]
pub struct TagPlan {
    pub title: String,
    pub album: String,
    /// Replaces all track artists, one item each.
    pub track_artists: Vec<String>,
    /// When present, replaces all album artists, one item each.
    pub album_artists: Option<Vec<String>>,
    /// Track number and track total.
    pub track_number: Option<(u32, u32)>,
    pub disc_number: Option<u32>,
    /// Text fields, in the order they are set.
    pub texts: Vec<TextTag>,
    /// Embed the cover picture (as front cover, JPEG).
    pub embed_cover: bool,
}

/// The date tagged: the track's own, else the collection's.
pub open spec fn tag_date(t: Track, c: TrackCollection) -> Option<String> {
    match t.date {
        Some(d) => Some(d),
        None => c.date,
    }
}

/// The year tagged for a date: its first four bytes when they are all ASCII
/// digits.
pub open spec fn year_of_date(d: Seq<char>) -> Option<Seq<char>> {
    let p = chars_before(d, 0, 4);
    if utf8_size(p) == 4 && p.len() == 4 && forall|i: int| 0 <= i < 4 ==> '0' <= #[trigger] p[i] <= '9' {
        Some(p)
    } else {
        None
    }
}

/// A text tag's view: its field and value text.
pub open spec fn text_view(t: TextTag) -> (TagKey, Seq<char>) {
    (t.key, t.value@)
}

/// `v` joined with `/` between items.
pub open spec fn join_slash(v: Seq<String>) -> Seq<char>
    decreases v.len(),
{
    if v.len() == 0 {
        Seq::empty()
    } else if v.len() == 1 {
        v[0]@
    } else {
        join_slash(v.drop_last()) + "/"@ + v.last()@
    }
}

/// The recording-date tag and the year tag of the date tagged.
pub open spec fn date_part(t: Track, c: TrackCollection) -> Seq<(TagKey, Seq<char>)> {
    match tag_date(t, c) {
        Some(d) => seq![(TagKey::RecordingDate, d@)] + match year_of_date(d@) {
            Some(y) => seq![(TagKey::Year, y)],
            None => Seq::empty(),
        },
        None => Seq::empty(),
    }
}

/// A tag for an optional value, when present.
pub open spec fn opt_part(key: TagKey, o: Option<String>) -> Seq<(TagKey, Seq<char>)> {
    match o {
        Some(v) => seq![(key, v@)],
        None => Seq::empty(),
    }
}

/// The tags every file gets: the track URI as source URL and as
/// `spotify_uri=` comment, and the explicit flag (`1` or `0`).
pub open spec fn fixed_part(t: Track) -> Seq<(TagKey, Seq<char>)> {
    seq![
        (TagKey::AudioSourceUrl, t.uri_str@),
        (TagKey::Comment, "spotify_uri="@ + t.uri_str@),
        (TagKey::ParentalAdvisory, if t.explicit { "1"@ } else { "0"@ }),
    ]
}

/// The languages joined with `/`, when there are any.
pub open spec fn language_part(t: Track) -> Seq<(TagKey, Seq<char>)> {
    if t.language@.len() > 0 {
        seq![(TagKey::Language, join_slash(t.language@))]
    } else {
        Seq::empty()
    }
}

/// The text tags, in order: recording date and year (from the track's date
/// or else the collection's), ISRC, label, barcode, source URL, comment,
/// explicit flag and languages.
pub open spec fn text_tags(t: Track, c: TrackCollection) -> Seq<(TagKey, Seq<char>)> {
    date_part(t, c) + opt_part(TagKey::Isrc, t.isrc) + opt_part(TagKey::Label, c.label)
        + opt_part(TagKey::Barcode, c.upc) + fixed_part(t) + language_part(t)
}

/// The views of a list of text tags.
pub open spec fn text_views(v: Seq<TextTag>) -> Seq<(TagKey, Seq<char>)> {
    v.map_values(|t: TextTag| text_view(t))
}

fn year_of(d: &String) -> (r: Option<String>)
    ensures
        match r {
            Some(y) => year_of_date(d@) == Some(y@),
            None => year_of_date(d@) is None,
        },
{
    let cs = chars_of(d.as_str());
    let mut p: Vec<char> = Vec::new();
    let mut size: usize = 0;
    let mut i: usize = 0;
    assert(cs@.skip(0) =~= cs@);
    assert(p@ + chars_before(cs@, 0, 4) =~= chars_before(cs@, 0, 4));
    while i < cs.len() && size < 4
        invariant
            i <= cs.len(),
            p@ == cs@.take(i as int),
            size == utf8_size(p@),
            size <= 7,
            p@ + chars_before(cs@.skip(i as int), size as nat, 4) == chars_before(cs@, 0, 4),
        decreases cs.len() - i,
    {
        let ghost rest = cs@.skip(i as int);
        assert(rest.drop_first() == cs@.skip(i + 1));
        let c = cs[i];
        let u = c as u32;
        let n: usize = if u < 0x80 { 1 } else if u < 0x800 { 2 } else if u < 0x10000 { 3 } else { 4 };
        assert(p@.push(c).drop_last() == p@);
        p.push(c);
        size = size + n;
        i = i + 1;
        assert(p@ == cs@.take(i as int));
    }
    proof {
        let rest = cs@.skip(i as int);
        assert(chars_before(rest, size as nat, 4) =~= Seq::<char>::empty());
        assert(p@ + Seq::<char>::empty() =~= p@);
    }
    if size != 4 || p.len() != 4 {
        return None;
    }
    let mut k: usize = 0;
    while k < 4
        invariant
            k <= 4,
            p@.len() == 4,
            p@ == chars_before(d@, 0, 4),
            utf8_size(p@) == 4,
            forall|j: int| 0 <= j < k ==> '0' <= #[trigger] p@[j] <= '9',
        decreases 4 - k,
    {
        if !('0' <= p[k] && p[k] <= '9') {
            return None;
        }
        k = k + 1;
    }
    Some(string_from_chars(p.as_slice()))
}

fn join_with_slash(v: &Vec<String>) -> (r: String)
    ensures
        r@ == join_slash(v@),
{
    let mut out: Vec<char> = Vec::new();
    let mut i: usize = 0;
    while i < v.len()
        invariant
            i <= v.len(),
            out@ == join_slash(v@.take(i as int)),
        decreases v.len() - i,
    {
        let ghost before = out@;
        assert(v@.take(i + 1).drop_last() =~= v@.take(i as int));
        if i > 0 {
            push_str_chars(&mut out, "/");
        }
        push_str_chars(&mut out, v[i].as_str());
        proof {
            if i == 0 {
                assert(out@ =~= v@.take(1)[0]@);
            } else {
                assert(out@ =~= before + "/"@ + v@[i as int]@);
            }
        }
        i = i + 1;
    }
    assert(v@.take(v.len() as int) =~= v@);
    string_from_chars(out.as_slice())
}

fn push_text(v: &mut Vec<TextTag>, key: TagKey, value: String)
    ensures
        text_views(final(v)@) == text_views(old(v)@).push((key, value@)),
{
    let ghost before = v@;
    v.push(TextTag { key, value });
    assert(text_views(v@) =~= text_views(before).push((key, value@)));
}

fn push_date_tags(v: &mut Vec<TextTag>, track: &Track, collection: &TrackCollection)
    ensures
        text_views(final(v)@) == text_views(old(v)@) + date_part(*track, *collection),
{
    let ghost before = text_views(v@);
    let date: Option<&String> = match &track.date {
        Some(d) => Some(d),
        None => match &collection.date {
            Some(d) => Some(d),
            None => None,
        },
    };
    if let Some(d) = date {
        push_text(v, TagKey::RecordingDate, d.clone());
        if let Some(y) = year_of(d) {
            push_text(v, TagKey::Year, y);
            assert(text_views(v@) =~= before + date_part(*track, *collection));
        } else {
            assert(text_views(v@) =~= before + date_part(*track, *collection));
        }
    } else {
        assert(text_views(v@) =~= before + date_part(*track, *collection));
    }
}

fn push_opt_tag(v: &mut Vec<TextTag>, key: TagKey, o: &Option<String>)
    ensures
        text_views(final(v)@) == text_views(old(v)@) + opt_part(key, *o),
{
    let ghost before = text_views(v@);
    if let Some(x) = o {
        push_text(v, key, x.clone());
        assert(text_views(v@) =~= before + opt_part(key, *o));
    } else {
        assert(text_views(v@) =~= before + opt_part(key, *o));
    }
}

fn push_fixed_tags(v: &mut Vec<TextTag>, track: &Track)
    ensures
        text_views(final(v)@) == text_views(old(v)@) + fixed_part(*track),
{
    let ghost before = text_views(v@);
    push_text(v, TagKey::AudioSourceUrl, track.uri_str.clone());
    let mut comment: Vec<char> = Vec::new();
    push_str_chars(&mut comment, "spotify_uri=");
    push_str_chars(&mut comment, track.uri_str.as_str());
    push_text(v, TagKey::Comment, string_from_chars(comment.as_slice()));
    push_text(v, TagKey::ParentalAdvisory, if track.explicit { owned("1") } else { owned("0") });
    assert(text_views(v@) =~= before + fixed_part(*track));
}

fn push_language_tag(v: &mut Vec<TextTag>, track: &Track)
    ensures
        text_views(final(v)@) == text_views(old(v)@) + language_part(*track),
{
    let ghost before = text_views(v@);
    if track.language.len() > 0 {
        push_text(v, TagKey::Language, join_with_slash(&track.language));
        assert(text_views(v@) =~= before + language_part(*track));
    } else {
        assert(text_views(v@) =~= before + language_part(*track));
    }
}

/// The text tags for `track` of `collection`, in the order they are set.
pub fn text_tags_for(track: &Track, collection: &TrackCollection) -> (r: Vec<TextTag>)
    ensures
        text_views(r@) == text_tags(*track, *collection),
{
    let mut texts: Vec<TextTag> = Vec::new();
    assert(text_views(texts@) =~= Seq::<(TagKey, Seq<char>)>::empty());
    push_date_tags(&mut texts, track, collection);
    push_opt_tag(&mut texts, TagKey::Isrc, &track.isrc);
    push_opt_tag(&mut texts, TagKey::Label, &collection.label);
    push_opt_tag(&mut texts, TagKey::Barcode, &collection.upc);
    push_fixed_tags(&mut texts, track);
    push_language_tag(&mut texts, track);
    assert(text_views(texts@) =~= text_tags(*track, *collection));
    texts
}

/// `r` is the tag plan for `track` of `collection`: its titles, artists,
/// numbers and text tags, and whether the cover is embedded.
pub open spec fn plans_tags(r: TagPlan, track: Track, collection: TrackCollection, has_cover: bool) -> bool {
    &&& r.title@ == track.title@
    &&& r.album@ == collection.title@
    &&& r.track_artists@ == track.artists@
    &&& match r.album_artists {
        Some(a) => collection.artists@.len() > 0 && a@ == collection.artists@,
        None => collection.artists@.len() == 0,
    }
    &&& r.track_number == (match track.number {
        Some(n) => Some((n as u32, collection.total_tracks as u32)),
        None => None,
    })
    &&& r.disc_number == (match track.disc_number {
        Some(d) => Some(d as u32),
        None => None,
    })
    &&& text_views(r.texts@) == text_tags(track, collection)
    &&& r.embed_cover == has_cover
}

/// The tags to write for `track` of `collection`; `has_cover` tells whether
/// non-empty cover image bytes are at hand.
pub fn plan_tags(track: &Track, collection: &TrackCollection, has_cover: bool) -> (r: TagPlan)
    ensures
        plans_tags(r, *track, *collection, has_cover),
{
    let texts = text_tags_for(track, collection);
    let album_artists = if collection.artists.len() > 0 {
        Some(crate::container::copy_strings(&collection.artists))
    } else {
        None
    };
    TagPlan {
        title: track.title.clone(),
        album: collection.title.clone(),
        track_artists: crate::container::copy_strings(&track.artists),
        album_artists,
        track_number: match track.number {
            Some(n) => Some((n as u32, collection.total_tracks as u32)),
            None => None,
        },
        disc_number: match track.disc_number {
            Some(d) => Some(d as u32),
            None => None,
        },
        texts,
        embed_cover: has_cover,
    }
}

} // verus!
