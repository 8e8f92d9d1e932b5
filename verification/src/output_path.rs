//! Where a downloaded track is stored:
//! `{base}/{primary artist}/{year} - {album}/{02 track} - {title}.{ext}`,
//! with a `{disc}-` prefix on the file name for discs after the first, and
//! every component made safe as a file name.

use vstd::prelude::*;
use crate::audio::AudioFormat;
use crate::container::{Track, TrackCollection};
use crate::paths::{joined, path_from_parts, pushed_path};
use crate::text::{
    chars_of, digit_char, padded2, push_all, push_decimal, push_padded2, push_str_chars, signed_decimal, decimal,
    string_from_chars, trim_chars, trim_ws,
};
use crate::uri::string_views;
use crate::cache::{artist_name, get_artist_name_from_vec};

verus! {

/// The file extension for an audio format.
pub open spec fn ext_text(f: AudioFormat) -> Seq<char> {
    match f {
        AudioFormat::OGG_VORBIS_320 | AudioFormat::OGG_VORBIS_160 | AudioFormat::OGG_VORBIS_96 => "ogg"@,
        AudioFormat::FLAC_FLAC | AudioFormat::FLAC_FLAC_24BIT => "flac"@,
        AudioFormat::MP3_320 | AudioFormat::MP3_256 | AudioFormat::MP3_160 | AudioFormat::MP3_160_ENC
        | AudioFormat::MP3_96 => "mp3"@,
        AudioFormat::AAC_320 | AudioFormat::AAC_160 | AudioFormat::AAC_48 | AudioFormat::AAC_24
        | AudioFormat::MP4_128 | AudioFormat::XHE_AAC_24 | AudioFormat::XHE_AAC_16
        | AudioFormat::XHE_AAC_12 => "m4a"@,
        AudioFormat::OTHER5 => "bin"@,
    }
}

/// The conventional file extension for an audio format.
pub fn ext_for_format(f: AudioFormat) -> (r: &'static str)
    ensures
        r@ == ext_text(f),
{
    match f {
        AudioFormat::OGG_VORBIS_320 | AudioFormat::OGG_VORBIS_160 | AudioFormat::OGG_VORBIS_96 => "ogg",
        AudioFormat::FLAC_FLAC | AudioFormat::FLAC_FLAC_24BIT => "flac",
        AudioFormat::MP3_320 | AudioFormat::MP3_256 | AudioFormat::MP3_160 | AudioFormat::MP3_160_ENC
        | AudioFormat::MP3_96 => "mp3",
        AudioFormat::AAC_320 | AudioFormat::AAC_160 | AudioFormat::AAC_48 | AudioFormat::AAC_24
        | AudioFormat::MP4_128 | AudioFormat::XHE_AAC_24 | AudioFormat::XHE_AAC_16
        | AudioFormat::XHE_AAC_12 => "m4a",
        AudioFormat::OTHER5 => "bin",
    }
}

/// Characters no file name may hold on any major filesystem.
pub open spec fn illegal_char(c: char) -> bool {
    c == '/' || c == '?' || c == '<' || c == '>' || c == '\\' || c == ':' || c == '*' || c == '|' || c == '"'
}

/// Control characters (`U+0000`–`U+001F`, `U+0080`–`U+009F`).
pub open spec fn control_char(c: char) -> bool {
    (c as u32) <= 0x1f || (0x80 <= (c as u32) && (c as u32) <= 0x9f)
}

/// What `sanitize_filename::sanitize` gives for `name`; it depends on
/// `name` alone.
pub uninterp spec fn sanitized_name(name: Seq<char>) -> Seq<char>;

/// `sanitize_filename::sanitize` with its default options. Claimed: the
/// result is the named value `sanitized_name(name)`, and (as the crate's
/// source shows: every match of its illegal-character and control-character
/// patterns is replaced by the empty string) it holds none of
/// `/ ? < > \ : * | "` and no control character. What it does with names
/// made only of dots, with Windows reserved names and with overlong names is
/// not stated.
#[verifier::external_body]
fn sanitize_filename(name: &str) -> (r: String)
    ensures
        r@ == sanitized_name(name@),
        forall|i: int| 0 <= i < r@.len() ==> !illegal_char(#[trigger] r@[i]) && !control_char(r@[i]),
{
    sanitize_filename::sanitize(name)
}

/// The number of bytes of `c` in UTF-8 (std's `char::len_utf8`).
pub open spec fn utf8_len(c: char) -> nat {
    if (c as u32) < 0x80 {
        1
    } else if (c as u32) < 0x800 {
        2
    } else if (c as u32) < 0x10000 {
        3
    } else {
        4
    }
}

/// The number of bytes of `s` in UTF-8.
pub open spec fn utf8_size(s: Seq<char>) -> nat
    decreases s.len(),
{
    if s.len() == 0 {
        0
    } else {
        utf8_size(s.drop_last()) + utf8_len(s.last())
    }
}

/// The characters of `s` that start before byte `limit`, when `s` starts at
/// byte `off`.
pub open spec fn chars_before(s: Seq<char>, off: nat, limit: nat) -> Seq<char>
    decreases s.len(),
{
    if s.len() == 0 || off >= limit {
        Seq::empty()
    } else {
        seq![s[0]] + chars_before(s.drop_first(), off + utf8_len(s[0]), limit)
    }
}

fn char_len_utf8(c: char) -> (n: usize)
    ensures
        n == utf8_len(c),
{
    let u = c as u32;
    if u < 0x80 {
        1
    } else if u < 0x800 {
        2
    } else if u < 0x10000 {
        3
    } else {
        4
    }
}

proof fn lemma_utf8_size_push(s: Seq<char>, c: char)
    ensures
        utf8_size(s.push(c)) == utf8_size(s) + utf8_len(c),
{
    assert(s.push(c).drop_last() == s);
}

/// The prefix of `v` made of the characters that start before byte `limit`,
/// with its size in bytes.
fn prefix_before_byte(v: &Vec<char>, limit: usize) -> (r: (Vec<char>, usize))
    requires
        limit <= 1024,
    ensures
        r.0@ == chars_before(v@, 0, limit as nat),
        r.1 == utf8_size(r.0@),
        r.0@.len() <= v@.len(),
        r.0@ == v@.take(r.0@.len() as int),
{
    let mut out: Vec<char> = Vec::new();
    let mut off: usize = 0;
    let mut i: usize = 0;
    assert(v@.skip(0) =~= v@);
    assert(out@ + chars_before(v@, 0, limit as nat) =~= chars_before(v@, 0, limit as nat));
    while i < v.len() && off < limit
        invariant
            limit <= 1024,
            i <= v.len(),
            off == utf8_size(out@),
            off <= limit + 4,
            out@ == v@.take(i as int),
            out@ + chars_before(v@.skip(i as int), off as nat, limit as nat) == chars_before(v@, 0, limit as nat),
        decreases v.len() - i,
    {
        let ghost rest = v@.skip(i as int);
        assert(rest.drop_first() == v@.skip(i + 1));
        let n = char_len_utf8(v[i]);
        proof {
            lemma_utf8_size_push(out@, v@[i as int]);
        }
        out.push(v[i]);
        off = off + n;
        i = i + 1;
        assert(out@ == v@.take(i as int));
    }
    proof {
        let rest = v@.skip(i as int);
        assert(chars_before(rest, off as nat, limit as nat) =~= Seq::<char>::empty());
        assert(out@ + Seq::<char>::empty() =~= out@);
    }
    (out, off)
}

proof fn lemma_utf8_size_prefix_le(s: Seq<char>, i: int, j: int)
    requires
        0 <= i <= j <= s.len(),
    ensures
        utf8_size(s.take(i)) <= utf8_size(s.take(j)),
    decreases j - i,
{
    if i < j {
        lemma_utf8_size_prefix_le(s, i, j - 1);
        lemma_utf8_size_push(s.take(j - 1), s[j - 1]);
        assert(s.take(j - 1).push(s[j - 1]) == s.take(j));
    }
}

/// Whether the characters of `v` take more than `limit` bytes in UTF-8.
fn exceeds_bytes(v: &Vec<char>, limit: usize) -> (r: bool)
    ensures
        r == (utf8_size(v@) > limit),
{
    let mut n: usize = 0;
    let mut i: usize = 0;
    while i < v.len()
        invariant
            i <= v.len(),
            n == utf8_size(v@.take(i as int)),
            n <= limit,
        decreases v.len() - i,
    {
        proof {
            lemma_utf8_size_push(v@.take(i as int), v@[i as int]);
            assert(v@.take(i as int).push(v@[i as int]) == v@.take(i + 1));
        }
        let k = char_len_utf8(v[i]);
        if k > limit - n {
            proof {
                lemma_utf8_size_prefix_le(v@, i + 1, v@.len() as int);
                assert(v@.take(v@.len() as int) == v@);
            }
            return true;
        }
        n = n + k;
        i = i + 1;
    }
    assert(v@.take(v.len() as int) == v@);
    false
}

/// The longest file-name component, in bytes, before truncation.
pub const MAX_COMPONENT_BYTES: usize = 200;

/// A name made safe as one path component: sanitised, trimmed, cut to the
/// characters that start within the first 200 bytes when longer, and `_`
/// when nothing is left.
pub open spec fn safe_component_text(s: Seq<char>) -> Seq<char> {
    let t = trim_ws(sanitized_name(s));
    let u = if utf8_size(t) > MAX_COMPONENT_BYTES { chars_before(t, 0, MAX_COMPONENT_BYTES as nat) } else { t };
    if u.len() == 0 {
        "_"@
    } else {
        u
    }
}

/// Makes a name safe as a single path component (file or directory name).
pub fn safe_component(s: &str) -> (r: String)
    ensures
        r@ == safe_component_text(s@),
        r@.len() > 0,
        forall|i: int| 0 <= i < r@.len() ==> !illegal_char(#[trigger] r@[i]) && !control_char(r@[i]),
{
    let sanitized = sanitize_filename(s);
    let cs = chars_of(sanitized.as_str());
    let trimmed = trim_chars(&cs);
    let ghost tv = trimmed@;
    let truncated = if exceeds_bytes(&trimmed, MAX_COMPONENT_BYTES) {
        prefix_before_byte(&trimmed, MAX_COMPONENT_BYTES).0
    } else {
        trimmed
    };
    assert forall|i: int| 0 <= i < truncated@.len() implies !illegal_char(#[trigger] truncated@[i]) && !control_char(truncated@[i]) by {
        assert(truncated@.len() <= tv.len());
        assert(truncated@ =~= tv.take(truncated@.len() as int));
        assert(truncated@[i] == tv[i]);
        assert(tv.contains(truncated@[i]));
        let k = choose|k: int| 0 <= k < cs@.len() && cs@[k] == truncated@[i];
    }
    if truncated.len() == 0 {
        proof {
            reveal_strlit("_");
        }
        string_from_chars(chars_of("_").as_slice())
    } else {
        string_from_chars(truncated.as_slice())
    }
}

/// The release year: the first four bytes of the date when they end on a
/// character boundary, else `0000`.
pub open spec fn year_text(date: Option<String>) -> Seq<char> {
    match date {
        Some(d) => {
            let p = chars_before(d@, 0, 4);
            if utf8_size(p) == 4 {
                p
            } else {
                "0000"@
            }
        },
        None => "0000"@,
    }
}

/// The track number used in file names (0 when unknown).
pub open spec fn track_number(t: Track) -> i32 {
    match t.number {
        Some(n) => n,
        None => 0,
    }
}

/// `s` holds no path separator.
pub open spec fn no_separator(s: Seq<char>) -> bool {
    forall|i: int| 0 <= i < s.len() ==> s[i] != '/'
}

proof fn lemma_join_no_separator(a: Seq<char>, b: Seq<char>)
    requires
        no_separator(a),
        no_separator(b),
    ensures
        no_separator(a + b),
{
    assert forall|i: int| 0 <= i < (a + b).len() implies (a + b)[i] != '/' by {
        if i >= a.len() {
            assert((a + b)[i] == b[i - a.len()]);
        }
    }
}

proof fn lemma_decimal_no_separator(n: nat)
    ensures
        no_separator(decimal(n)),
    decreases n,
{
    if n >= 10 {
        lemma_decimal_no_separator(n / 10);
        let d = decimal(n / 10);
        assert(decimal(n) == d.push(digit_char((n % 10) as int)));
        assert forall|i: int| 0 <= i < decimal(n).len() implies decimal(n)[i] != '/' by {
            if i < d.len() {
                assert(decimal(n)[i] == d[i]);
            }
        }
    }
}

proof fn lemma_numbers_no_separator(n: int)
    ensures
        no_separator(signed_decimal(n)),
        no_separator(padded2(n)),
{
    if n < 0 {
        lemma_decimal_no_separator((-n) as nat);
        lemma_join_no_separator(seq!['-'], decimal((-n) as nat));
    } else {
        lemma_decimal_no_separator(n as nat);
        if n < 10 {
            lemma_join_no_separator(seq!['0'], decimal(n as nat));
        }
    }
}

proof fn lemma_safe_no_separator(r: Seq<char>)
    requires
        forall|i: int| 0 <= i < r.len() ==> !illegal_char(#[trigger] r[i]) && !control_char(r[i]),
    ensures
        no_separator(r),
{
    assert forall|i: int| 0 <= i < r.len() implies r[i] != '/' by {
        assert(!illegal_char(r[i]));
    }
}

proof fn lemma_joined_keeps_base(b: Seq<char>, n: Seq<char>)
    requires
        no_separator(n),
    ensures
        b.is_prefix_of(joined(b, n)),
{
    if n.len() > 0 {
        assert(n[0] != '/');
    }
    let j = joined(b, n);
    assert forall|i: int| 0 <= i < b.len() implies j[i] == b[i] by {}
}

proof fn lemma_prefix_trans(a: Seq<char>, b: Seq<char>, c: Seq<char>)
    requires
        a.is_prefix_of(b),
        b.is_prefix_of(c),
    ensures
        a.is_prefix_of(c),
{
    assert forall|i: int| 0 <= i < a.len() implies c[i] == a[i] by {
        assert(b[i] == a[i]);
    }
}

/// The stored path stays below `base`: pushing names without a separator
/// onto `base` only ever extends it.
proof fn lemma_stays_below(base: Seq<char>, rest: Seq<Seq<char>>)
    requires
        forall|i: int| 0 <= i < rest.len() ==> no_separator(#[trigger] rest[i]),
    ensures
        base.is_prefix_of(pushed_path(seq![base] + rest)),
    decreases rest.len(),
{
    let parts = seq![base] + rest;
    if rest.len() == 0 {
        assert(parts == seq![base]);
        assert(parts.drop_last() =~= Seq::<Seq<char>>::empty());
        assert(pushed_path(Seq::<Seq<char>>::empty()) == Seq::<char>::empty());
        assert(parts.last() == base);
        assert(pushed_path(parts) == joined(Seq::<char>::empty(), base));
        if base.len() > 0 && base[0] == '/' {
        } else {
            assert(Seq::<char>::empty() + base =~= base);
        }
    } else {
        let front = rest.drop_last();
        lemma_stays_below(base, front);
        assert(parts.drop_last() =~= seq![base] + front);
        assert(parts.last() == rest.last());
        lemma_joined_keeps_base(pushed_path(seq![base] + front), rest.last());
        lemma_prefix_trans(base, pushed_path(seq![base] + front), pushed_path(parts));
    }
}

proof fn lemma_ext_no_separator(f: AudioFormat)
    ensures
        no_separator(ext_text(f)),
{
    reveal_strlit("ogg");
    reveal_strlit("flac");
    reveal_strlit("mp3");
    reveal_strlit("m4a");
    reveal_strlit("bin");
}

/// The artist directory: the primary artist made safe.
pub open spec fn artist_dir_text(t: Track) -> Seq<char> {
    safe_component_text(artist_name(t.artists@))
}

/// The album directory: `{year} - {album}`.
pub open spec fn album_dir_text(c: TrackCollection) -> Seq<char> {
    year_text(c.date) + " - "@ + safe_component_text(c.title@)
}

/// The file name without extension: `{02 number} - {title}`, with `{disc}-`
/// in front for discs after the first.
pub open spec fn file_stem_text(t: Track) -> Seq<char> {
    let prefix = match t.disc_number {
        Some(d) => if d > 1 { signed_decimal(d as int) + "-"@ } else { Seq::empty() },
        None => Seq::empty(),
    };
    prefix + padded2(track_number(t) as int) + " - "@ + safe_component_text(t.title@)
}

/// The file name: the stem, a dot and the format's extension.
pub open spec fn file_name_text(t: Track, f: AudioFormat) -> Seq<char> {
    file_stem_text(t) + "."@ + ext_text(f)
}

fn year_of(date: &Option<String>) -> (r: Vec<char>)
    ensures
        r@ == year_text(*date),
{
    match date {
        Some(d) => {
            let cs = chars_of(d.as_str());
            let (p, n) = prefix_before_byte(&cs, 4);
            if n == 4 {
                p
            } else {
                chars_of("0000")
            }
        },
        None => chars_of("0000"),
    }
}

fn album_dir_name(collection: &TrackCollection) -> (r: String)
    ensures
        r@ == album_dir_text(*collection),
        no_separator(year_text(collection.date)) ==> no_separator(r@),
{
    let mut v = year_of(&collection.date);
    push_str_chars(&mut v, " - ");
    let album = safe_component(collection.title.as_str());
    push_str_chars(&mut v, album.as_str());
    proof {
        reveal_strlit(" - ");
        lemma_safe_no_separator(album@);
        if no_separator(year_text(collection.date)) {
            lemma_join_no_separator(year_text(collection.date), " - "@);
            lemma_join_no_separator(year_text(collection.date) + " - "@, album@);
        }
    }
    string_from_chars(v.as_slice())
}

fn file_stem(track: &Track) -> (r: Vec<char>)
    ensures
        r@ == file_stem_text(*track),
        no_separator(r@),
{
    let mut v: Vec<char> = Vec::new();
    if let Some(d) = track.disc_number {
        if d > 1 {
            crate::text::push_signed_decimal(&mut v, d as i64);
            push_str_chars(&mut v, "-");
        }
    }
    let ghost prefix = v@;
    assert(prefix == match track.disc_number {
        Some(d) => if d > 1 { signed_decimal(d as int) + "-"@ } else { Seq::<char>::empty() },
        None => Seq::<char>::empty(),
    }) by {
        if let Some(d) = track.disc_number {
            if d > 1 {
                assert(Seq::<char>::empty() + signed_decimal(d as int) + "-"@ =~= signed_decimal(d as int) + "-"@);
            }
        }
    }
    let n: i32 = match track.number {
        Some(n) => n,
        None => 0,
    };
    push_padded2(&mut v, n as i64);
    push_str_chars(&mut v, " - ");
    let title = safe_component(track.title.as_str());
    push_str_chars(&mut v, title.as_str());
    assert(v@ =~= file_stem_text(*track));
    proof {
        reveal_strlit("-");
        reveal_strlit(" - ");
        lemma_safe_no_separator(title@);
        lemma_numbers_no_separator(n as int);
        if let Some(d) = track.disc_number {
            lemma_numbers_no_separator(d as int);
            lemma_join_no_separator(signed_decimal(d as int), "-"@);
        }
        assert(no_separator(prefix));
        lemma_join_no_separator(prefix, padded2(n as int));
        lemma_join_no_separator(prefix + padded2(n as int), " - "@);
        lemma_join_no_separator(prefix + padded2(n as int) + " - "@, title@);
    }
    v
}

/// The directories a track goes in, below `base`.
fn track_dirs(base: &str, track: &Track, collection: &TrackCollection) -> (r: Vec<String>)
    ensures
        string_views(r@) == seq![base@, artist_dir_text(*track), album_dir_text(*collection)],
        no_separator(artist_dir_text(*track)),
        no_separator(year_text(collection.date)) ==> no_separator(album_dir_text(*collection)),
{
    let artist = get_artist_name_from_vec(&track.artists);
    let mut parts: Vec<String> = Vec::new();
    parts.push(string_from_chars(chars_of(base).as_slice()));
    let safe_artist = safe_component(artist.as_str());
    proof {
        lemma_safe_no_separator(safe_artist@);
    }
    parts.push(safe_artist);
    parts.push(album_dir_name(collection));
    assert(string_views(parts@) =~= seq![base@, artist_dir_text(*track), album_dir_text(*collection)]);
    parts
}

/// The full path of a downloaded track:
/// `{base}/{artist}/{year} - {album}/{file name}`.
///
/// No name taken from the metadata can add a path separator: the artist
/// directory and the file name never hold `/`, nor does the album
/// directory unless the release year taken from the date does; without
/// such a year the path always starts with `base`.
pub fn build_output_path(base: &str, track: &Track, collection: &TrackCollection, fmt: AudioFormat) -> (r: String)
    ensures
        r@ == pushed_path(seq![base@, artist_dir_text(*track), album_dir_text(*collection), file_name_text(*track, fmt)]),
        no_separator(artist_dir_text(*track)),
        no_separator(file_name_text(*track, fmt)),
        no_separator(year_text(collection.date)) ==> no_separator(album_dir_text(*collection)),
        no_separator(year_text(collection.date)) ==> base@.is_prefix_of(r@),
{
    let mut parts = track_dirs(base, track, collection);
    let ghost dirs = string_views(parts@);
    let mut name = file_stem(track);
    push_str_chars(&mut name, ".");
    push_str_chars(&mut name, ext_for_format(fmt));
    assert(name@ =~= file_name_text(*track, fmt));
    proof {
        reveal_strlit(".");
        lemma_ext_no_separator(fmt);
        lemma_join_no_separator(file_stem_text(*track), "."@);
        lemma_join_no_separator(file_stem_text(*track) + "."@, ext_text(fmt));
    }
    let file_name = string_from_chars(name.as_slice());
    parts.push(file_name);
    assert(string_views(parts@) =~= dirs.push(file_name_text(*track, fmt)));
    assert(string_views(parts@) =~= seq![base@, artist_dir_text(*track), album_dir_text(*collection), file_name_text(*track, fmt)]);
    proof {
        if no_separator(year_text(collection.date)) {
            let rest = seq![artist_dir_text(*track), album_dir_text(*collection), file_name_text(*track, fmt)];
            assert forall|i: int| 0 <= i < rest.len() implies no_separator(#[trigger] rest[i]) by {}
            lemma_stays_below(base@, rest);
            assert(seq![base@] + rest =~= seq![base@, artist_dir_text(*track), album_dir_text(*collection), file_name_text(*track, fmt)]);
        }
    }
    path_from_parts(&parts)
}

/// The directory a track is stored in: `{base}/{artist}/{year} - {album}`.
pub fn build_output_dir(base: &str, track: &Track, collection: &TrackCollection) -> (r: String)
    ensures
        r@ == pushed_path(seq![base@, artist_dir_text(*track), album_dir_text(*collection)]),
        no_separator(artist_dir_text(*track)),
        no_separator(year_text(collection.date)) ==> no_separator(album_dir_text(*collection)),
{
    let parts = track_dirs(base, track, collection);
    path_from_parts(&parts)
}

/// The track's path without its extension, to look for a copy in any
/// format.
pub fn build_output_stem(base: &str, track: &Track, collection: &TrackCollection) -> (r: String)
    ensures
        r@ == pushed_path(seq![base@, artist_dir_text(*track), album_dir_text(*collection), file_stem_text(*track)]),
        no_separator(artist_dir_text(*track)),
        no_separator(file_stem_text(*track)),
        no_separator(year_text(collection.date)) ==> no_separator(album_dir_text(*collection)),
{
    let mut parts = track_dirs(base, track, collection);
    let ghost dirs = string_views(parts@);
    let stem = file_stem(track);
    let s = string_from_chars(stem.as_slice());
    parts.push(s);
    assert(string_views(parts@) =~= dirs.push(file_stem_text(*track)));
    assert(string_views(parts@) =~= seq![base@, artist_dir_text(*track), album_dir_text(*collection), file_stem_text(*track)]);
    path_from_parts(&parts)
}

} // verus!
