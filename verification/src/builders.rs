//! The path layout of the command-line downloader:
//! `{base}/{artists}/{album}/{year}_{artists}_{album}_{003 track}_{title}.ogg`,
//! where the artists are joined by ` & ` and every name is cleaned with
//! [`sanitize`](crate::validation::sanitize).

use vstd::prelude::*;
use crate::paths::{path_from_parts, pushed_path};
use crate::text::{parsed_integer, chars_of, chars_between, decimal, find_either, first_pos, push_decimal, push_signed_decimal, push_str_chars, signed_decimal, string_from_chars};
use crate::uri::string_views;
use crate::validation::{sanitize, sanitized};

verus! {

/// What std's `str::parse::<i32>` gives for `s`: the integer it spells,
/// when that fits in an `i32`.
pub open spec fn parsed_i32(s: Seq<char>) -> Option<i32> {
    match parsed_integer(s, true) {
        Some(v) => if i32::MIN <= v <= i32::MAX { Some(v as i32) } else { None },
        None => None,
    }
}

/// `s.parse::<i32>()`, `None` when it fails. Claimed: the result is
/// `parsed_i32(s)`, as std documents integer parsing.
#[verifier::external_body]
pub(crate) fn parse_i32(s: &str) -> (r: Option<i32>)
    ensures
        r == parsed_i32(s@),
{
    s.parse::<i32>().ok()
}

/// The year of a date: its text up to the first `-` read as a number, or 0.
pub open spec fn year_number(date: Option<String>) -> i32 {
    match date {
        Some(d) => match parsed_i32(d@.take(first_pos(d@, '-', '-') as int)) {
            Some(y) => y,
            None => 0,
        },
        None => 0,
    }
}

/// `v` joined with ` & ` between items.
pub open spec fn join_amp(v: Seq<String>) -> Seq<char>
    decreases v.len(),
{
    if v.len() == 0 {
        Seq::empty()
    } else if v.len() == 1 {
        v[0]@
    } else {
        join_amp(v.drop_last()) + " & "@ + v.last()@
    }
}

/// `{:03}` of a number: at least three digits, padded with leading zeros.
pub open spec fn padded3(n: nat) -> Seq<char> {
    if n < 10 {
        "00"@ + decimal(n)
    } else if n < 100 {
        "0"@ + decimal(n)
    } else {
        decimal(n)
    }
}

/// The file name: `{year}_{artists}_{album}_{003 track}_{title}.ogg`.
pub open spec fn track_file_name(date: Option<String>, artists: Seq<String>, album: Seq<char>, title: Seq<char>, number: u32) -> Seq<char> {
    signed_decimal(year_number(date) as int) + "_"@ + sanitized(join_amp(artists)) + "_"@ + sanitized(album)
        + "_"@ + padded3(number as nat) + "_"@ + sanitized(title) + ".ogg"@
}

/// The three names below the base: the artists, the album, and the file
/// name.
pub open spec fn track_path_parts(date: Option<String>, artists: Seq<String>, album: Seq<char>, title: Seq<char>, number: u32) -> Seq<Seq<char>> {
    seq![
        sanitized(join_amp(artists)),
        sanitized(album),
        track_file_name(date, artists, album, title, number),
    ]
}

fn push_padded3(v: &mut Vec<char>, n: u32)
    ensures
        final(v)@ == old(v)@ + padded3(n as nat),
{
    let ghost before = v@;
    if n < 10 {
        push_str_chars(v, "00");
    } else if n < 100 {
        push_str_chars(v, "0");
    }
    push_decimal(v, n as u64);
    proof {
        reveal_strlit("00");
        reveal_strlit("0");
        if n < 10 {
            assert(v@ =~= before + ("00"@ + decimal(n as nat)));
        } else if n < 100 {
            assert(v@ =~= before + ("0"@ + decimal(n as nat)));
        } else {
            assert(v@ =~= before + decimal(n as nat));
        }
    }
}

fn join_artists(v: &Vec<String>) -> (r: String)
    ensures
        r@ == join_amp(v@),
{
    let mut out: Vec<char> = Vec::new();
    let mut i: usize = 0;
    while i < v.len()
        invariant
            i <= v.len(),
            out@ == join_amp(v@.take(i as int)),
        decreases v.len() - i,
    {
        let ghost before = out@;
        assert(v@.take(i + 1).drop_last() =~= v@.take(i as int));
        if i > 0 {
            push_str_chars(&mut out, " & ");
        }
        push_str_chars(&mut out, v[i].as_str());
        proof {
            if i == 0 {
                assert(out@ =~= v@.take(1)[0]@);
            } else {
                assert(out@ =~= before + " & "@ + v@[i as int]@);
            }
        }
        i = i + 1;
    }
    assert(v@.take(v.len() as int) =~= v@);
    string_from_chars(out.as_slice())
}

fn year_of(date: &Option<String>) -> (r: i32)
    ensures
        r == year_number(*date),
{
    match date {
        Some(d) => {
            let cs = chars_of(d.as_str());
            let p = find_either(&cs, 0, '-', '-');
            assert(cs@.skip(0) =~= cs@);
            let head = chars_between(&cs, 0, p);
            assert(head@ =~= cs@.take(p as int));
            let s = string_from_chars(head.as_slice());
            match parse_i32(s.as_str()) {
                Some(y) => y,
                None => 0,
            }
        },
        None => 0,
    }
}

/// The path a track is cached at:
/// `{base}/{artists}/{album}/{year}_{artists}_{album}_{003 track}_{title}.ogg`.
pub fn build_track_path(base_music_dir: &str, date: &Option<String>, artist_names: &Vec<String>, album_name: &str, track_name: &str, track_number: u32) -> (r: String)
    ensures
        r@ == pushed_path(seq![base_music_dir@] + track_path_parts(*date, artist_names@, album_name@, track_name@, track_number)),
{
    let artists = join_artists(artist_names);
    let artist_dir = sanitize(artists.as_str());
    let album_dir = sanitize(album_name);
    let title = sanitize(track_name);
    let mut file: Vec<char> = Vec::new();
    push_signed_decimal(&mut file, year_of(date) as i64);
    push_str_chars(&mut file, "_");
    push_str_chars(&mut file, artist_dir.as_str());
    push_str_chars(&mut file, "_");
    push_str_chars(&mut file, album_dir.as_str());
    push_str_chars(&mut file, "_");
    push_padded3(&mut file, track_number);
    push_str_chars(&mut file, "_");
    push_str_chars(&mut file, title.as_str());
    push_str_chars(&mut file, ".ogg");
    assert(file@ =~= track_file_name(*date, artist_names@, album_name@, track_name@, track_number));
    let mut parts: Vec<String> = Vec::new();
    parts.push(string_from_chars(chars_of(base_music_dir).as_slice()));
    parts.push(artist_dir);
    parts.push(album_dir);
    parts.push(string_from_chars(file.as_slice()));
    assert(string_views(parts@) =~= seq![base_music_dir@] + track_path_parts(*date, artist_names@, album_name@, track_name@, track_number));
    path_from_parts(&parts)
}

} // verus!
