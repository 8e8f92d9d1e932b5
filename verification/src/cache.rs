//! Small helpers of the caching path: the artist to file a track under, the
//! temporary file name, console lines, and the cover-art cache layout.

use vstd::prelude::*;
use crate::container::Track;
use crate::paths::{components_of, file_stem, has_file_name, joined, path_join, path_with_extension, with_extension};
use crate::text::{decimal, owned, push_decimal, push_str_chars, string_from_chars};

verus! {

/// The first artist, or `Unknown Artist` when there is none.
pub open spec fn artist_name(artists: Seq<String>) -> Seq<char> {
    if artists.len() > 0 {
        artists[0]@
    } else {
        "Unknown Artist"@
    }
}

/// The artist to file a track under: the first listed, or `Unknown Artist`.
pub fn get_artist_name_from_vec(artists: &Vec<String>) -> (r: String)
    ensures
        r@ == artist_name(artists@),
{
    if artists.len() > 0 {
        artists[0].clone()
    } else {
        owned("Unknown Artist")
    }
}

/// The temporary file a track is written to before it is moved into place:
/// the output path with its extension replaced by `tmp.ogg` (the `.ogg`
/// ending lets the tagger recognise the format).
pub fn build_temp_path(output_path: &str) -> (r: String)
    ensures
        r@ == with_extension(output_path@, "tmp.ogg"@),
        !has_file_name(output_path@) ==> r@ == output_path@,
        has_file_name(output_path@) ==> components_of(r@) == components_of(output_path@).drop_last().push(
            file_stem(components_of(output_path@).last()) + ".tmp.ogg"@),
{
    proof {
        reveal_strlit("tmp.ogg");
        reveal_strlit(".");
        reveal_strlit(".tmp.ogg");
    }
    let r = path_with_extension(output_path, "tmp.ogg");
    let ghost stem = file_stem(components_of(output_path@).last());
    assert(stem + "."@ + "tmp.ogg"@ =~= stem + ".tmp.ogg"@);
    r
}

/// `Track {index} of {total}: {name}`.
pub open spec fn track_display(index: nat, total: nat, name: Seq<char>) -> Seq<char> {
    "Track "@ + decimal(index) + " of "@ + decimal(total) + ": "@ + name
}

/// The console line announcing a track.
pub fn format_track_display(index: usize, total: usize, track_name: &str) -> (r: String)
    ensures
        r@ == track_display(index as nat, total as nat, track_name@),
{
    let mut v: Vec<char> = Vec::new();
    push_str_chars(&mut v, "Track ");
    push_decimal(&mut v, index as u64);
    push_str_chars(&mut v, " of ");
    push_decimal(&mut v, total as u64);
    push_str_chars(&mut v, ": ");
    push_str_chars(&mut v, track_name);
    string_from_chars(v.as_slice())
}

/// The track's cover id is `id`.
pub open spec fn has_cover(t: Track, id: Seq<char>) -> bool {
    t.cover_id matches Some(c) && c@ == id
}

/// The cover ids a collection refers to: its own and each track's.
pub open spec fn cover_ids(collection_cover: Option<String>, tracks: Seq<Track>) -> Set<Seq<char>> {
    Set::new(|id: Seq<char>|
        (collection_cover matches Some(c) && c@ == id)
            || exists|i: int| 0 <= i < tracks.len() && #[trigger] has_cover(tracks[i], id))
}

/// No id occurs twice.
pub open spec fn no_repeats(s: Seq<Seq<char>>) -> bool {
    forall|i: int, j: int| 0 <= i < j < s.len() ==> s[i] != s[j]
}

/// Cache of cover images, one `{id}.jpg` file per cover id under a base
/// directory.
pub struct CoverCache {
    pub base_dir: String,
}

impl CoverCache {
    /// A cache rooted at `base_dir`.
    pub fn new(base_dir: String) -> (c: Self)
        ensures
            c.base_dir == base_dir,
    {
        CoverCache { base_dir }
    }

    /// Every cover id a collection needs, once each: the collection's own
    /// cover and each track's.
    pub fn collect_unique_covers(&self, collection_cover: &Option<String>, tracks: &Vec<Track>) -> (r: Vec<String>)
        ensures
            no_repeats(crate::uri::string_views(r@)),
            crate::uri::string_views(r@).to_set() == cover_ids(*collection_cover, tracks@),
    {
        let mut out: Vec<String> = Vec::new();
        let mut seen: Vec<Vec<char>> = Vec::new();
        if let Some(c) = collection_cover {
            out.push(c.clone());
            seen.push(crate::text::chars_of(c.as_str()));
        }
        proof {
            let sv = crate::uri::string_views(out@);
            assert forall|id: Seq<char>| #[trigger] sv.contains(id) <==>
                ((*collection_cover matches Some(c) && c@ == id)
                    || exists|j: int| 0 <= j < 0 && #[trigger] has_cover(tracks@[j], id)) by {
                if let Some(c) = collection_cover {
                    assert(sv[0] == c@);
                }
            }
        }
        let mut i: usize = 0;
        while i < tracks.len()
            invariant
                i <= tracks.len(),
                out@.len() == seen@.len(),
                forall|k: int| 0 <= k < seen@.len() ==> (#[trigger] seen@[k])@ == out@[k]@,
                no_repeats(crate::uri::string_views(out@)),
                forall|id: Seq<char>| #[trigger] crate::uri::string_views(out@).contains(id) <==>
                    ((*collection_cover matches Some(c) && c@ == id)
                        || exists|j: int| 0 <= j < i && #[trigger] has_cover(tracks@[j], id)),
            decreases tracks.len() - i,
        {
            let ghost at_start = crate::uri::string_views(out@);
            if let Some(c) = &tracks[i].cover_id {
                let cv = crate::text::chars_of(c.as_str());
                let mut found = false;
                let mut k: usize = 0;
                while k < seen.len()
                    invariant
                        k <= seen@.len(),
                        found ==> crate::uri::string_views(out@).contains(cv@),
                        !found ==> forall|q: int| 0 <= q < k ==> (#[trigger] seen@[q])@ != cv@,
                        out@.len() == seen@.len(),
                        forall|q: int| 0 <= q < seen@.len() ==> (#[trigger] seen@[q])@ == out@[q]@,
                    decreases seen@.len() - k,
                {
                    if crate::text::same_chars(&seen[k], &cv) {
                        found = true;
                        assert(crate::uri::string_views(out@)[k as int] == cv@);
                    }
                    k = k + 1;
                }
                let ghost before = crate::uri::string_views(out@);
                if !found {
                    out.push(c.clone());
                    seen.push(cv);
                    assert(crate::uri::string_views(out@) =~= before.push(c@));
                    assert forall|q: int| 0 <= q < before.len() implies before[q] != c@ by {
                        assert(seen@[q]@ == out@[q]@);
                    }
                }
                let ghost now = crate::uri::string_views(out@);
                assert(forall|id: Seq<char>| #[trigger] now.contains(id) <==> (at_start.contains(id) || c@ == id)) by {
                    assert forall|id: Seq<char>| #[trigger] now.contains(id) <==> (at_start.contains(id) || c@ == id) by {
                        if !found {
                            if now.contains(id) && id != c@ {
                                let q = choose|q: int| 0 <= q < now.len() && now[q] == id;
                                assert(at_start[q] == id);
                            }
                            if at_start.contains(id) {
                                let q = choose|q: int| 0 <= q < at_start.len() && at_start[q] == id;
                                assert(now[q] == id);
                            }
                            assert(now[now.len() - 1] == c@);
                        }
                    }
                }
            }
            proof {
                let now = crate::uri::string_views(out@);
                assert forall|id: Seq<char>| #[trigger] now.contains(id) <==>
                    ((*collection_cover matches Some(c) && c@ == id)
                        || exists|j: int| 0 <= j < i + 1 && #[trigger] has_cover(tracks@[j], id)) by {
                    if has_cover(tracks@[i as int], id) {
                    } else {
                        if exists|j: int| 0 <= j < i + 1 && #[trigger] has_cover(tracks@[j], id) {
                            let j = choose|j: int| 0 <= j < i + 1 && #[trigger] has_cover(tracks@[j], id);
                            assert(j < i);
                        }
                    }
                }
            }
            i = i + 1;
        }
        proof {
            let sv = crate::uri::string_views(out@);
            assert(sv.to_set() =~= cover_ids(*collection_cover, tracks@)) by {
                assert forall|id: Seq<char>| sv.to_set().contains(id) <==> cover_ids(*collection_cover, tracks@).contains(id) by {
                }
            }
        }
        out
    }

    /// Where the cover with id `cover_id` is kept: `{base_dir}/{cover_id}.jpg`.
    pub fn get_cover_path_from_id(&self, cover_id: &str) -> (r: String)
        ensures
            r@ == joined(self.base_dir@, cover_id@ + ".jpg"@),
    {
        let mut v: Vec<char> = Vec::new();
        push_str_chars(&mut v, cover_id);
        push_str_chars(&mut v, ".jpg");
        let name = string_from_chars(v.as_slice());
        path_join(self.base_dir.as_str(), name.as_str())
    }
}

} // verus!
