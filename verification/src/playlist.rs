//! Extended M3U playlists for finished collections: the header block, one
//! `#EXTINF` entry per downloaded track, and track paths relative to the
//! playlist's directory.

use vstd::prelude::*;
use crate::container::TrackCollection;
use crate::paths::{
    components_of, joined, kept_segment, lemma_components_joined, lemma_components_of_pushed,
    lemma_components_plain, path_components, path_from_parts, path_parent, parent_of, plain_component,
    pushed_path, segments,
};
use crate::text::{owned, push_signed_decimal, push_str_chars, signed_decimal, string_from_chars};
use crate::uri::string_views;

verus! {

/// A downloaded track to list in a playlist.
#[derive(Debug)]
pub struct TrackEntry {
    /// Path of the downloaded audio file.
    pub final_path: String,
    /// Track title (written into `#EXTINF`).
    pub title: String,
    /// Duration in milliseconds (written as seconds in `#EXTINF`).
    pub duration_ms: i32,
}

/// Number of leading components two component lists share.
pub open spec fn common_len(a: Seq<Seq<char>>, b: Seq<Seq<char>>) -> nat
    decreases a.len(),
{
    if a.len() == 0 || b.len() == 0 || a[0] != b[0] {
        0
    } else {
        1 + common_len(a.drop_first(), b.drop_first())
    }
}

/// The components leading from directory `base` to `target`: one `..` for
/// each component of `base` after the shared ones, then the rest of
/// `target`.
pub open spec fn relative_parts(base: Seq<Seq<char>>, target: Seq<Seq<char>>) -> Seq<Seq<char>> {
    let c = common_len(base, target) as int;
    Seq::new((base.len() - c) as nat, |i: int| ".."@) + target.skip(c)
}

/// The relative path from directory `from_dir` to `to_file`, by
/// components.
pub open spec fn relative_text(from_dir: Seq<char>, to_file: Seq<char>) -> Seq<char> {
    pushed_path(relative_parts(components_of(from_dir), components_of(to_file)))
}

proof fn lemma_common_len_at(a: Seq<Seq<char>>, b: Seq<Seq<char>>, k: int)
    requires
        0 <= k <= a.len(),
        k <= b.len(),
        forall|j: int| 0 <= j < k ==> a[j] == b[j],
        k == a.len() || k == b.len() || a[k] != b[k],
    ensures
        common_len(a, b) == k,
    decreases k,
{
    if k > 0 {
        assert forall|j: int| 0 <= j < k - 1 implies a.drop_first()[j] == b.drop_first()[j] by {
            assert(a.drop_first()[j] == a[j + 1]);
            assert(b.drop_first()[j] == b[j + 1]);
        }
        lemma_common_len_at(a.drop_first(), b.drop_first(), k - 1);
    }
}

/// The directory reached from the components `dir` by following the
/// components `rel` one by one, lexically: `..` goes up one level, any
/// other component goes down into it.
pub open spec fn resolve(dir: Seq<Seq<char>>, rel: Seq<Seq<char>>) -> Seq<Seq<char>>
    decreases rel.len(),
{
    if rel.len() == 0 {
        dir
    } else if rel[0] == ".."@ {
        resolve(dir.drop_last(), rel.drop_first())
    } else {
        resolve(dir.push(rel[0]), rel.drop_first())
    }
}

proof fn lemma_common_prefix(a: Seq<Seq<char>>, b: Seq<Seq<char>>)
    ensures
        common_len(a, b) <= a.len(),
        common_len(a, b) <= b.len(),
        forall|j: int| 0 <= j < common_len(a, b) ==> a[j] == b[j],
    decreases a.len(),
{
    if !(a.len() == 0 || b.len() == 0 || a[0] != b[0]) {
        lemma_common_prefix(a.drop_first(), b.drop_first());
        assert forall|j: int| 0 <= j < common_len(a, b) implies a[j] == b[j] by {
            if j > 0 {
                assert(a[j] == a.drop_first()[j - 1]);
                assert(b[j] == b.drop_first()[j - 1]);
            }
        }
    }
}

proof fn lemma_resolve_down(dir: Seq<Seq<char>>, rel: Seq<Seq<char>>)
    requires
        forall|i: int| 0 <= i < rel.len() ==> rel[i] != ".."@,
    ensures
        resolve(dir, rel) == dir + rel,
    decreases rel.len(),
{
    if rel.len() > 0 {
        assert(rel[0] != ".."@);
        let t = rel.drop_first();
        assert forall|i: int| 0 <= i < t.len() implies t[i] != ".."@ by {
            assert(t[i] == rel[i + 1]);
        }
        lemma_resolve_down(dir.push(rel[0]), t);
        assert(dir.push(rel[0]) + t =~= dir + rel);
    } else {
        assert(dir + rel =~= dir);
    }
}

proof fn lemma_resolve_up(dir: Seq<Seq<char>>, k: nat, rest: Seq<Seq<char>>)
    requires
        k <= dir.len(),
    ensures
        resolve(dir, Seq::new(k, |i: int| ".."@) + rest) == resolve(dir.take(dir.len() - k), rest),
    decreases k,
{
    let ups = Seq::new(k, |i: int| ".."@);
    if k == 0 {
        assert(ups + rest =~= rest);
        assert(dir.take(dir.len() as int) =~= dir);
    } else {
        let rel = ups + rest;
        assert(rel[0] == ".."@);
        assert(rel.drop_first() =~= Seq::new((k - 1) as nat, |i: int| ".."@) + rest);
        lemma_resolve_up(dir.drop_last(), (k - 1) as nat, rest);
        assert(dir.drop_last().take(dir.drop_last().len() - (k - 1)) =~= dir.take(dir.len() - k));
    }
}

/// Following the relative components from `base` leads back to `target`:
/// going up past the components the two do not share and down into the
/// rest of `target` gives `target`, provided that rest holds no `..`.
pub proof fn law_relative_parts_round_trip(base: Seq<Seq<char>>, target: Seq<Seq<char>>)
    requires
        forall|i: int| common_len(base, target) <= i < target.len() ==> target[i] != ".."@,
    ensures
        resolve(base, relative_parts(base, target)) == target,
{
    lemma_common_prefix(base, target);
    let c = common_len(base, target) as int;
    let rest = target.skip(c);
    assert forall|i: int| 0 <= i < rest.len() implies rest[i] != ".."@ by {
        assert(rest[i] == target[i + c]);
    }
    lemma_resolve_up(base, (base.len() - c) as nat, rest);
    lemma_resolve_down(base.take(c), rest);
    assert(base.take(c) + rest =~= target);
}

/// For absolute `from_dir` and `to_file`, where `to_file` has no `..`
/// component: the components of `relative_path(from_dir, to_file)` are the
/// relative components; `from_dir` joined with it has the components of
/// `from_dir` followed by those; and following them from `from_dir`, with
/// `..` going up one level, leads to the components of `to_file`.
pub proof fn law_relative_path_round_trip(from_dir: Seq<char>, to_file: Seq<char>)
    requires
        from_dir.len() > 0 && from_dir[0] == '/',
        to_file.len() > 0 && to_file[0] == '/',
        forall|i: int| 0 <= i < components_of(to_file).len() ==> components_of(to_file)[i] != ".."@,
    ensures
        components_of(relative_text(from_dir, to_file))
            == relative_parts(components_of(from_dir), components_of(to_file)),
        components_of(joined(from_dir, relative_text(from_dir, to_file)))
            == components_of(from_dir) + components_of(relative_text(from_dir, to_file)),
        resolve(components_of(from_dir), components_of(relative_text(from_dir, to_file)))
            == components_of(to_file),
{
    reveal_strlit("/");
    reveal_strlit("..");
    reveal_strlit(".");
    let base = components_of(from_dir);
    let target = components_of(to_file);
    let tail = segments(to_file).filter(kept_segment());
    assert(target == seq!["/"@] + tail);
    assert(base[0] == "/"@);
    assert(target[0] == "/"@);
    let c = common_len(base, target) as int;
    assert(c >= 1);
    lemma_common_prefix(base, target);
    lemma_components_plain(to_file);
    let ups = (base.len() - c) as nat;
    let parts = relative_parts(base, target);
    assert forall|i: int| 0 <= i < parts.len() implies plain_component(#[trigger] parts[i]) by {
        if i >= ups {
            assert(parts[i] == target[i - ups + c]);
            assert(target[i - ups + c] == tail[i - ups + c - 1]);
        } else {
            assert(parts[i] == ".."@);
        }
    }
    lemma_components_of_pushed(parts);
    lemma_components_joined(from_dir, pushed_path(parts));
    law_relative_parts_round_trip(base, target);
}

/// The path of `to_file` relative to the directory `from_dir`, going up
/// with `..` past the components the two do not share.
pub fn relative_path(from_dir: &str, to_file: &str) -> (r: String)
    ensures
        r@ == relative_text(from_dir@, to_file@),
{
    let base = path_components(from_dir);
    let target = path_components(to_file);
    let ghost bs = string_views(base@);
    let ghost ts = string_views(target@);
    let mut c: usize = 0;
    while c < base.len() && c < target.len() && base[c] == target[c]
        invariant
            c <= base.len(),
            c <= target.len(),
            bs == string_views(base@),
            ts == string_views(target@),
            forall|j: int| 0 <= j < c ==> bs[j] == ts[j],
        decreases base.len() - c,
    {
        c = c + 1;
    }
    proof {
        lemma_common_len_at(bs, ts, c as int);
    }
    let mut parts: Vec<String> = Vec::new();
    let mut i: usize = c;
    while i < base.len()
        invariant
            c <= i <= base.len(),
            string_views(parts@) == Seq::new((i - c) as nat, |k: int| ".."@),
        decreases base.len() - i,
    {
        let ghost pv = string_views(parts@);
        let up = owned("..");
        parts.push(up);
        assert(string_views(parts@) =~= pv.push(".."@));
        i = i + 1;
        assert(string_views(parts@) =~= Seq::new((i - c) as nat, |k: int| ".."@));
    }
    let ghost ups = string_views(parts@);
    let mut j: usize = c;
    while j < target.len()
        invariant
            c <= j <= target.len(),
            ts == string_views(target@),
            string_views(parts@) == ups + ts.subrange(c as int, j as int),
        decreases target.len() - j,
    {
        let ghost pv = string_views(parts@);
        let part = target[j].clone();
        parts.push(part);
        assert(string_views(parts@) =~= pv.push(ts[j as int]));
        j = j + 1;
        assert(string_views(parts@) =~= ups + ts.subrange(c as int, j as int));
    }
    assert(ts.subrange(c as int, ts.len() as int) =~= ts.skip(c as int));
    path_from_parts(&parts)
}

/// The directory a playlist file lives in.
pub fn playlist_dir(m3u8_path: &str) -> (r: Option<String>)
    ensures
        match r {
            Some(d) => parent_of(m3u8_path@) == Some(d@),
            None => parent_of(m3u8_path@) is None,
        },
        r is None <==> (components_of(m3u8_path@).len() == 0 || components_of(m3u8_path@).last() == "/"@),
        r matches Some(d) ==> components_of(d@) == components_of(m3u8_path@).drop_last(),
{
    path_parent(m3u8_path)
}

/// Integer division rounding toward zero, as Rust's `/` does.
pub open spec fn div_toward_zero(a: int, b: int) -> int {
    if a >= 0 {
        a / b
    } else {
        -((-a) / b)
    }
}

/// One line of text with its line break.
pub open spec fn line(s: Seq<char>) -> Seq<char> {
    s + "\n"@
}

/// The header block: `#EXTM3U`, `#PLAYLIST:`, `#EXTART:` (when there is an
/// artist), `# Spotify-URI: `, `# UPC: ` and `# Date: ` (when known), then
/// a blank line.
pub open spec fn m3u8_header(c: TrackCollection) -> Seq<char> {
    line("#EXTM3U"@) + line("#PLAYLIST:"@ + c.title@)
        + (if c.artists@.len() > 0 { line("#EXTART:"@ + c.artists@[0]@) } else { Seq::empty() })
        + line("# Spotify-URI: "@ + c.uri_str@)
        + (match c.upc { Some(u) => line("# UPC: "@ + u@), None => Seq::empty() })
        + (match c.date { Some(d) => line("# Date: "@ + d@), None => Seq::empty() })
        + line(Seq::empty())
}

/// The two lines of one entry: `#EXTINF:{seconds},{title}` and the path
/// relative to `base_dir`.
pub open spec fn m3u8_entry(base_dir: Seq<char>, e: TrackEntry) -> Seq<char> {
    line("#EXTINF:"@ + signed_decimal(div_toward_zero(e.duration_ms as int, 1000)) + ","@ + e.title@)
        + line(relative_text(base_dir, e.final_path@))
}

/// The entries of the tracks, in order.
pub open spec fn m3u8_entries(base_dir: Seq<char>, tracks: Seq<TrackEntry>) -> Seq<char>
    decreases tracks.len(),
{
    if tracks.len() == 0 {
        Seq::empty()
    } else {
        m3u8_entries(base_dir, tracks.drop_last()) + m3u8_entry(base_dir, tracks.last())
    }
}

fn push_line(v: &mut Vec<char>, s: &str)
    ensures
        final(v)@ == old(v)@ + line(s@),
{
    push_str_chars(v, s);
    push_str_chars(v, "\n");
    assert(final(v)@ =~= old(v)@ + line(s@));
}

/// The text of an extended M3U playlist kept in `base_dir`.
pub fn m3u8_text(base_dir: &str, collection: &TrackCollection, tracks: &Vec<TrackEntry>) -> (r: String)
    ensures
        r@ == m3u8_header(*collection) + m3u8_entries(base_dir@, tracks@),
{
    let mut v: Vec<char> = Vec::new();
    push_line(&mut v, "#EXTM3U");
    let ghost h1 = v@;
    push_str_chars(&mut v, "#PLAYLIST:");
    push_line(&mut v, collection.title.as_str());
    assert(v@ =~= h1 + line("#PLAYLIST:"@ + collection.title@));
    let ghost h2 = v@;
    if collection.artists.len() > 0 {
        push_str_chars(&mut v, "#EXTART:");
        push_line(&mut v, collection.artists[0].as_str());
        assert(v@ =~= h2 + line("#EXTART:"@ + collection.artists@[0]@));
    } else {
        assert(v@ =~= h2 + Seq::<char>::empty());
    }
    let ghost h3 = v@;
    push_str_chars(&mut v, "# Spotify-URI: ");
    push_line(&mut v, collection.uri_str.as_str());
    assert(v@ =~= h3 + line("# Spotify-URI: "@ + collection.uri_str@));
    let ghost h4 = v@;
    match &collection.upc {
        Some(u) => {
            push_str_chars(&mut v, "# UPC: ");
            push_line(&mut v, u.as_str());
            assert(v@ =~= h4 + line("# UPC: "@ + u@));
        },
        None => {
            assert(v@ =~= h4 + Seq::<char>::empty());
        },
    }
    let ghost h5 = v@;
    match &collection.date {
        Some(d) => {
            push_str_chars(&mut v, "# Date: ");
            push_line(&mut v, d.as_str());
            assert(v@ =~= h5 + line("# Date: "@ + d@));
        },
        None => {
            assert(v@ =~= h5 + Seq::<char>::empty());
        },
    }
    push_line(&mut v, "");
    proof {
        reveal_strlit("");
    }
    assert(v@ =~= m3u8_header(*collection));
    let ghost head = v@;
    let mut i: usize = 0;
    while i < tracks.len()
        invariant
            i <= tracks.len(),
            v@ == head + m3u8_entries(base_dir@, tracks@.take(i as int)),
        decreases tracks.len() - i,
    {
        let ghost before = v@;
        let e = &tracks[i];
        let secs: i64 = if e.duration_ms >= 0 {
            (e.duration_ms / 1000) as i64
        } else {
            -((-(e.duration_ms as i64)) / 1000)
        };
        push_str_chars(&mut v, "#EXTINF:");
        push_signed_decimal(&mut v, secs);
        push_str_chars(&mut v, ",");
        push_line(&mut v, e.title.as_str());
        let rel = relative_path(base_dir, e.final_path.as_str());
        push_line(&mut v, rel.as_str());
        assert(tracks@.take(i + 1).drop_last() =~= tracks@.take(i as int));
        assert(v@ =~= before + m3u8_entry(base_dir@, tracks@[i as int]));
        i = i + 1;
    }
    assert(tracks@.take(tracks.len() as int) =~= tracks@);
    string_from_chars(v.as_slice())
}

} // verus!
