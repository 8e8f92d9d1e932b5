//! Audio formats and their ranking, the copy that drops Spotify's private
//! header, and the retry policy for transient download failures.

use vstd::prelude::*;
use crate::text::{chars_of, contains_chars, contains_seq};

verus! {

/// Spotify's audio file formats (the variants of librespot's
/// `AudioFileFormat`).
#[allow(non_camel_case_types)]
#[derive(PartialEq, Eq, Structural, Clone, Copy, Debug)]
pub enum AudioFormat {
    OGG_VORBIS_96,
    OGG_VORBIS_160,
    OGG_VORBIS_320,
    MP3_256,
    MP3_320,
    MP3_160,
    MP3_96,
    MP3_160_ENC,
    AAC_24,
    AAC_48,
    FLAC_FLAC,
    XHE_AAC_24,
    XHE_AAC_16,
    XHE_AAC_12,
    FLAC_FLAC_24BIT,
    AAC_160,
    AAC_320,
    MP4_128,
    OTHER5,
}

/// Number of known formats.
pub const FORMAT_COUNT: u8 = 19;

/// Quality rank of a format, 0 the best: lossless first, then 320, 256, 160,
/// 96 kbps and the low-bitrate formats; within a tier OGG Vorbis comes first.
pub open spec fn rank_of(f: AudioFormat) -> u8 {
    match f {
        AudioFormat::FLAC_FLAC => 0,
        AudioFormat::FLAC_FLAC_24BIT => 1,
        AudioFormat::OGG_VORBIS_320 => 2,
        AudioFormat::AAC_320 => 3,
        AudioFormat::MP3_320 => 4,
        AudioFormat::OTHER5 => 5,
        AudioFormat::MP3_256 => 6,
        AudioFormat::OGG_VORBIS_160 => 7,
        AudioFormat::AAC_160 => 8,
        AudioFormat::MP3_160 => 9,
        AudioFormat::MP3_160_ENC => 10,
        AudioFormat::MP4_128 => 11,
        AudioFormat::OGG_VORBIS_96 => 12,
        AudioFormat::MP3_96 => 13,
        AudioFormat::AAC_48 => 14,
        AudioFormat::AAC_24 => 15,
        AudioFormat::XHE_AAC_24 => 16,
        AudioFormat::XHE_AAC_16 => 17,
        AudioFormat::XHE_AAC_12 => 18,
    }
}

/// Quality rank of a format (lower is better).
pub fn format_rank(f: AudioFormat) -> (r: u8)
    ensures
        r == rank_of(f),
        r < FORMAT_COUNT,
{
    match f {
        AudioFormat::FLAC_FLAC => 0,
        AudioFormat::FLAC_FLAC_24BIT => 1,
        AudioFormat::OGG_VORBIS_320 => 2,
        AudioFormat::AAC_320 => 3,
        AudioFormat::MP3_320 => 4,
        AudioFormat::OTHER5 => 5,
        AudioFormat::MP3_256 => 6,
        AudioFormat::OGG_VORBIS_160 => 7,
        AudioFormat::AAC_160 => 8,
        AudioFormat::MP3_160 => 9,
        AudioFormat::MP3_160_ENC => 10,
        AudioFormat::MP4_128 => 11,
        AudioFormat::OGG_VORBIS_96 => 12,
        AudioFormat::MP3_96 => 13,
        AudioFormat::AAC_48 => 14,
        AudioFormat::AAC_24 => 15,
        AudioFormat::XHE_AAC_24 => 16,
        AudioFormat::XHE_AAC_16 => 17,
        AudioFormat::XHE_AAC_12 => 18,
    }
}

/// The format of rank `r`.
fn format_at_rank(r: u8) -> (f: AudioFormat)
    requires
        r < FORMAT_COUNT,
    ensures
        rank_of(f) == r,
{
    if r == 0 {
        AudioFormat::FLAC_FLAC
    } else if r == 1 {
        AudioFormat::FLAC_FLAC_24BIT
    } else if r == 2 {
        AudioFormat::OGG_VORBIS_320
    } else if r == 3 {
        AudioFormat::AAC_320
    } else if r == 4 {
        AudioFormat::MP3_320
    } else if r == 5 {
        AudioFormat::OTHER5
    } else if r == 6 {
        AudioFormat::MP3_256
    } else if r == 7 {
        AudioFormat::OGG_VORBIS_160
    } else if r == 8 {
        AudioFormat::AAC_160
    } else if r == 9 {
        AudioFormat::MP3_160
    } else if r == 10 {
        AudioFormat::MP3_160_ENC
    } else if r == 11 {
        AudioFormat::MP4_128
    } else if r == 12 {
        AudioFormat::OGG_VORBIS_96
    } else if r == 13 {
        AudioFormat::MP3_96
    } else if r == 14 {
        AudioFormat::AAC_48
    } else if r == 15 {
        AudioFormat::AAC_24
    } else if r == 16 {
        AudioFormat::XHE_AAC_24
    } else if r == 17 {
        AudioFormat::XHE_AAC_16
    } else {
        AudioFormat::XHE_AAC_12
    }
}

/// Distinct formats have distinct ranks.
pub proof fn lemma_rank_injective(f: AudioFormat, g: AudioFormat)
    ensures
        rank_of(f) == rank_of(g) ==> f == g,
{
}

/// The format is an OGG Vorbis one.
pub open spec fn ogg_vorbis(f: AudioFormat) -> bool {
    f == AudioFormat::OGG_VORBIS_320 || f == AudioFormat::OGG_VORBIS_160 || f == AudioFormat::OGG_VORBIS_96
}

/// Whether the format is OGG Vorbis (librespot's `AudioFiles::is_ogg_vorbis`).
pub fn is_ogg_vorbis(f: AudioFormat) -> (r: bool)
    ensures
        r == ogg_vorbis(f),
{
    match f {
        AudioFormat::OGG_VORBIS_320 | AudioFormat::OGG_VORBIS_160 | AudioFormat::OGG_VORBIS_96 => true,
        _ => false,
    }
}

/// Size of Spotify's private header in front of OGG Vorbis files.
pub const OGG_HEADER_LEN: usize = 167;

/// How many bytes to drop from the front of a downloaded file: Spotify's
/// 167-byte header exists only in OGG Vorbis files.
pub fn header_len_for(f: AudioFormat) -> (r: usize)
    ensures
        r == (if ogg_vorbis(f) { OGG_HEADER_LEN } else { 0 }),
{
    if is_ogg_vorbis(f) {
        OGG_HEADER_LEN
    } else {
        0
    }
}

/// Bytes per second of the format (its nominal bitrate in kbit/s times 128),
/// used as the streaming buffer hint.
pub open spec fn data_rate(f: AudioFormat) -> usize {
    match f {
        AudioFormat::FLAC_FLAC | AudioFormat::FLAC_FLAC_24BIT => 114688,
        AudioFormat::OGG_VORBIS_320 | AudioFormat::AAC_320 | AudioFormat::MP3_320 | AudioFormat::OTHER5 => 40960,
        AudioFormat::MP3_256 => 32768,
        AudioFormat::OGG_VORBIS_160 | AudioFormat::AAC_160 | AudioFormat::MP3_160 | AudioFormat::MP3_160_ENC => 20480,
        AudioFormat::MP4_128 => 16384,
        AudioFormat::OGG_VORBIS_96 | AudioFormat::MP3_96 => 12288,
        AudioFormat::AAC_48 => 6144,
        AudioFormat::AAC_24 | AudioFormat::XHE_AAC_24 => 3072,
        AudioFormat::XHE_AAC_16 => 2048,
        AudioFormat::XHE_AAC_12 => 1536,
    }
}

/// The streaming buffer hint for a format, in bytes per second.
pub fn data_rate_bytes_per_sec(f: AudioFormat) -> (r: usize)
    ensures
        r == data_rate(f),
{
    match f {
        AudioFormat::FLAC_FLAC | AudioFormat::FLAC_FLAC_24BIT => 114688,
        AudioFormat::OGG_VORBIS_320 | AudioFormat::AAC_320 | AudioFormat::MP3_320 | AudioFormat::OTHER5 => 40960,
        AudioFormat::MP3_256 => 32768,
        AudioFormat::OGG_VORBIS_160 | AudioFormat::AAC_160 | AudioFormat::MP3_160 | AudioFormat::MP3_160_ENC => 20480,
        AudioFormat::MP4_128 => 16384,
        AudioFormat::OGG_VORBIS_96 | AudioFormat::MP3_96 => 12288,
        AudioFormat::AAC_48 => 6144,
        AudioFormat::AAC_24 | AudioFormat::XHE_AAC_24 => 3072,
        AudioFormat::XHE_AAC_16 => 2048,
        AudioFormat::XHE_AAC_12 => 1536,
    }
}

/// `f` is the best of the formats in `avail`: present, and ranked no worse
/// than any other.
pub open spec fn is_best_of(f: AudioFormat, avail: Seq<AudioFormat>) -> bool {
    avail.contains(f) && forall|i: int| 0 <= i < avail.len() ==> rank_of(f) <= rank_of(#[trigger] avail[i])
}

fn has_format(avail: &Vec<AudioFormat>, f: AudioFormat) -> (r: bool)
    ensures
        r == avail@.contains(f),
{
    let mut i: usize = 0;
    while i < avail.len()
        invariant
            i <= avail.len(),
            forall|j: int| 0 <= j < i ==> avail@[j] != f,
        decreases avail.len() - i,
    {
        if avail[i] == f {
            return true;
        }
        i = i + 1;
    }
    false
}

/// The best format among those a track offers, or `None` when it offers
/// none.
pub fn best_format(avail: &Vec<AudioFormat>) -> (r: Option<AudioFormat>)
    ensures
        match r {
            Some(f) => is_best_of(f, avail@),
            None => avail@.len() == 0,
        },
{
    let mut r: u8 = 0;
    while r < FORMAT_COUNT
        invariant
            r <= FORMAT_COUNT,
            forall|i: int| 0 <= i < avail.len() ==> rank_of(#[trigger] avail@[i]) >= r,
        decreases FORMAT_COUNT - r,
    {
        let f = format_at_rank(r);
        if has_format(avail, f) {
            return Some(f);
        }
        assert forall|i: int| 0 <= i < avail.len() implies rank_of(#[trigger] avail@[i]) >= r + 1 by {
            if rank_of(avail@[i]) == r {
                lemma_rank_injective(avail@[i], f);
            }
        }
        r = r + 1;
    }
    if avail.len() > 0 {
        assert(rank_of(avail@[0]) < FORMAT_COUNT);
    }
    None
}

/// A format of strictly higher nominal bitrate is strictly preferred.
pub proof fn law_higher_bitrate_ranks_better(f: AudioFormat, g: AudioFormat)
    requires
        data_rate(f) > data_rate(g),
    ensures
        rank_of(f) < rank_of(g),
{
}

/// Within one bitrate, OGG Vorbis is preferred to every other codec.
pub proof fn law_ogg_first_within_bitrate(f: AudioFormat, g: AudioFormat)
    requires
        data_rate(f) == data_rate(g),
        ogg_vorbis(f),
        !ogg_vorbis(g),
    ensures
        rank_of(f) < rank_of(g),
{
}

/// The codec family of a format, in the order preferred within one
/// bitrate: OGG Vorbis (and lossless FLAC), then AAC, then MP3, then the
/// rest (extended AAC, MP4 and the unnamed format).
pub open spec fn codec_preference(f: AudioFormat) -> nat {
    match f {
        AudioFormat::OGG_VORBIS_320 | AudioFormat::OGG_VORBIS_160 | AudioFormat::OGG_VORBIS_96 => 0,
        AudioFormat::FLAC_FLAC | AudioFormat::FLAC_FLAC_24BIT => 0,
        AudioFormat::AAC_320 | AudioFormat::AAC_160 | AudioFormat::AAC_48 | AudioFormat::AAC_24 => 1,
        AudioFormat::MP3_320 | AudioFormat::MP3_256 | AudioFormat::MP3_160 | AudioFormat::MP3_160_ENC
            | AudioFormat::MP3_96 => 2,
        _ => 3,
    }
}

/// Within one bitrate, the preferred codec family ranks first.
pub proof fn law_codec_order_within_bitrate(f: AudioFormat, g: AudioFormat)
    requires
        data_rate(f) == data_rate(g),
        codec_preference(f) < codec_preference(g),
    ensures
        rank_of(f) < rank_of(g),
{
}

/// Among OGG Vorbis formats the higher bitrate is preferred, and any OGG
/// Vorbis format is preferred to any other.
pub proof fn law_ogg_rank_order(f: AudioFormat, g: AudioFormat)
    requires
        ogg_vorbis(f),
    ensures
        ogg_vorbis(g) && data_rate(f) > data_rate(g) ==> ogg_rank_of(f) < ogg_rank_of(g),
        !ogg_vorbis(g) ==> ogg_rank_of(f) < ogg_rank_of(g),
{
}

/// The best format a track offers has no lower bitrate than any other
/// format it offers.
pub proof fn law_best_has_top_bitrate(f: AudioFormat, avail: Seq<AudioFormat>)
    requires
        is_best_of(f, avail),
    ensures
        forall|i: int| 0 <= i < avail.len() ==> data_rate(#[trigger] avail[i]) <= data_rate(f),
{
    assert forall|i: int| 0 <= i < avail.len() implies data_rate(#[trigger] avail[i]) <= data_rate(f) by {
        if data_rate(avail[i]) > data_rate(f) {
            law_higher_bitrate_ranks_better(avail[i], f);
        }
    }
}

/// `i` is the position of the first of the smallest values in `ranks`.
pub open spec fn first_min_at(ranks: Seq<u8>, i: int) -> bool {
    &&& 0 <= i < ranks.len()
    &&& forall|j: int| 0 <= j < ranks.len() ==> ranks[i] <= #[trigger] ranks[j]
    &&& forall|j: int| 0 <= j < i ==> ranks[i] < #[trigger] ranks[j]
}

/// Which of several download candidates to take, given their format ranks in
/// the order they were found: the first of the best ranked, or `None` when
/// there is no candidate.
pub fn best_candidate(ranks: &Vec<u8>) -> (r: Option<usize>)
    ensures
        match r {
            Some(i) => first_min_at(ranks@, i as int),
            None => ranks@.len() == 0,
        },
{
    if ranks.len() == 0 {
        return None;
    }
    let mut best: usize = 0;
    let mut i: usize = 1;
    while i < ranks.len()
        invariant
            0 < i <= ranks.len(),
            best < i,
            forall|j: int| 0 <= j < i ==> ranks@[best as int] <= #[trigger] ranks@[j],
            forall|j: int| 0 <= j < best ==> ranks@[best as int] < #[trigger] ranks@[j],
        decreases ranks.len() - i,
    {
        if ranks[i] < ranks[best] {
            best = i;
        }
        i = i + 1;
    }
    Some(best)
}

/// Where the chosen audio comes from.
#[derive(PartialEq, Eq, Structural, Clone, Copy, Debug)]
pub enum Source {
    /// The track as requested.
    Original,
    /// The alternative (per-market) track at this position.
    Alternative(usize),
}

/// `s` is the first best-ranked candidate: the original (when it has a rank)
/// comes before the alternatives, which keep their order; lower ranks are
/// better.
pub open spec fn first_best(original: Option<u8>, alts: Seq<Option<u8>>, s: Source) -> bool {
    match s {
        Source::Original => original matches Some(r)
            && forall|j: int| 0 <= j < alts.len() ==> (#[trigger] alts[j] matches Some(g) ==> r <= g),
        Source::Alternative(i) => {
            &&& 0 <= i < alts.len()
            &&& alts[i as int] matches Some(r)
            &&& (original matches Some(o) ==> r < o)
            &&& (forall|j: int| 0 <= j < i ==> (#[trigger] alts[j] matches Some(g) ==> r < g))
            &&& (forall|j: int| 0 <= j < alts.len() ==> (#[trigger] alts[j] matches Some(g) ==> r <= g))
        },
    }
}

/// There is no candidate at all.
pub open spec fn no_candidate(original: Option<u8>, alts: Seq<Option<u8>>) -> bool {
    original is None && forall|j: int| 0 <= j < alts.len() ==> (#[trigger] alts[j]) is None
}

/// The first of the best-ranked candidates, the original first.
pub fn first_best_source(original: Option<u8>, alts: &Vec<Option<u8>>) -> (r: Option<Source>)
    ensures
        match r {
            Some(s) => first_best(original, alts@, s),
            None => no_candidate(original, alts@),
        },
{
    let mut best: Option<(Source, u8)> = match original {
        Some(o) => Some((Source::Original, o)),
        None => None,
    };
    let mut i: usize = 0;
    while i < alts.len()
        invariant
            i <= alts.len(),
            best is None ==> original is None && forall|j: int| 0 <= j < i ==> (#[trigger] alts@[j]) is None,
            best matches Some((s, r)) ==> ({
                &&& forall|j: int| 0 <= j < i ==> (#[trigger] alts@[j] matches Some(g) ==> r <= g)
                &&& match s {
                    Source::Original => original == Some(r),
                    Source::Alternative(k) => {
                        &&& k < i
                        &&& alts@[k as int] == Some(r)
                        &&& (original matches Some(o) ==> r < o)
                        &&& forall|j: int| 0 <= j < k ==> (#[trigger] alts@[j] matches Some(g) ==> r < g)
                    },
                }
            }),
        decreases alts.len() - i,
    {
        if let Some(g) = alts[i] {
            match best {
                None => {
                    best = Some((Source::Alternative(i), g));
                },
                Some((_, r)) => {
                    if g < r {
                        best = Some((Source::Alternative(i), g));
                    }
                },
            }
        }
        i = i + 1;
    }
    match best {
        Some((s, _)) => Some(s),
        None => None,
    }
}

/// Rank among OGG Vorbis formats: 320 kbps, 160, 96, anything else last.
pub open spec fn ogg_rank_of(f: AudioFormat) -> u8 {
    match f {
        AudioFormat::OGG_VORBIS_320 => 0,
        AudioFormat::OGG_VORBIS_160 => 1,
        AudioFormat::OGG_VORBIS_96 => 2,
        _ => 3,
    }
}

/// The best OGG Vorbis format among those a track offers (320, then 160,
/// then 96 kbps), or `None` when it offers none.
pub fn best_ogg_format(avail: &Vec<AudioFormat>) -> (r: Option<AudioFormat>)
    ensures
        match r {
            Some(f) => avail@.contains(f) && ogg_vorbis(f)
                && forall|i: int| 0 <= i < avail@.len() ==> ogg_rank_of(f) <= ogg_rank_of(#[trigger] avail@[i]),
            None => forall|i: int| 0 <= i < avail@.len() ==> !ogg_vorbis(#[trigger] avail@[i]),
        },
{
    if has_format(avail, AudioFormat::OGG_VORBIS_320) {
        return Some(AudioFormat::OGG_VORBIS_320);
    }
    if has_format(avail, AudioFormat::OGG_VORBIS_160) {
        return Some(AudioFormat::OGG_VORBIS_160);
    }
    if has_format(avail, AudioFormat::OGG_VORBIS_96) {
        return Some(AudioFormat::OGG_VORBIS_96);
    }
    None
}

/// The OGG rank of an optional format.
pub open spec fn opt_ogg_rank(f: Option<AudioFormat>) -> Option<u8> {
    match f {
        Some(x) => Some(ogg_rank_of(x)),
        None => None,
    }
}

/// Which track to download an OGG Vorbis file of, given the best OGG
/// format of the original and of each alternative (when they have one): the
/// first of the best.
pub fn choose_ogg_source(original: Option<AudioFormat>, alternatives: &Vec<Option<AudioFormat>>) -> (r: Option<Source>)
    ensures
        match r {
            Some(s) => first_best(opt_ogg_rank(original), alternatives@.map_values(|f: Option<AudioFormat>| opt_ogg_rank(f)), s),
            None => no_candidate(opt_ogg_rank(original), alternatives@.map_values(|f: Option<AudioFormat>| opt_ogg_rank(f))),
        },
{
    let mut ranks: Vec<Option<u8>> = Vec::new();
    let mut i: usize = 0;
    while i < alternatives.len()
        invariant
            i <= alternatives.len(),
            ranks@ == alternatives@.take(i as int).map_values(|f: Option<AudioFormat>| opt_ogg_rank(f)),
        decreases alternatives.len() - i,
    {
        let r = match alternatives[i] {
            Some(f) => Some(ogg_rank(f)),
            None => None,
        };
        ranks.push(r);
        i = i + 1;
        assert(ranks@ =~= alternatives@.take(i as int).map_values(|f: Option<AudioFormat>| opt_ogg_rank(f)));
    }
    assert(alternatives@.take(alternatives.len() as int) =~= alternatives@);
    let o = match original {
        Some(f) => Some(ogg_rank(f)),
        None => None,
    };
    first_best_source(o, &ranks)
}

fn ogg_rank(f: AudioFormat) -> (r: u8)
    ensures
        r == ogg_rank_of(f),
{
    match f {
        AudioFormat::OGG_VORBIS_320 => 0,
        AudioFormat::OGG_VORBIS_160 => 1,
        AudioFormat::OGG_VORBIS_96 => 2,
        _ => 3,
    }
}

/// The format rank of an optional format.
pub open spec fn opt_rank(f: Option<AudioFormat>) -> Option<u8> {
    match f {
        Some(x) => Some(rank_of(x)),
        None => None,
    }
}

/// Which track to download, given the best format of the primary track
/// (when it is available and has one) and of each alternative, in the
/// order they were resolved: the first of the best ranked.
pub fn choose_audio_source(primary: Option<AudioFormat>, alternatives: &Vec<Option<AudioFormat>>) -> (r: Option<Source>)
    ensures
        match r {
            Some(s) => first_best(opt_rank(primary), alternatives@.map_values(|f: Option<AudioFormat>| opt_rank(f)), s),
            None => no_candidate(opt_rank(primary), alternatives@.map_values(|f: Option<AudioFormat>| opt_rank(f))),
        },
{
    let mut ranks: Vec<Option<u8>> = Vec::new();
    let mut i: usize = 0;
    while i < alternatives.len()
        invariant
            i <= alternatives.len(),
            ranks@ == alternatives@.take(i as int).map_values(|f: Option<AudioFormat>| opt_rank(f)),
        decreases alternatives.len() - i,
    {
        let r = match alternatives[i] {
            Some(f) => Some(format_rank(f)),
            None => None,
        };
        ranks.push(r);
        i = i + 1;
        assert(ranks@ =~= alternatives@.take(i as int).map_values(|f: Option<AudioFormat>| opt_rank(f)));
    }
    assert(alternatives@.take(alternatives.len() as int) =~= alternatives@);
    let p = match primary {
        Some(f) => Some(format_rank(f)),
        None => None,
    };
    first_best_source(p, &ranks)
}

/// Whether the per-market alternatives of a track must be looked at, given
/// the best format of the primary track (`None` when it is unavailable or
/// has no known format): always, unless the primary already has lossless
/// audio (rank 0), which nothing can beat.
pub fn alternatives_needed(primary: Option<AudioFormat>) -> (r: bool)
    ensures
        r == !(primary matches Some(f) && rank_of(f) == 0),
{
    match primary {
        Some(f) => format_rank(f) != 0,
        None => true,
    }
}

/// Whether to stop looking at further alternatives once one offering
/// `best` was found: it has lossless audio (rank 0).
pub fn stop_after(best: Option<AudioFormat>) -> (r: bool)
    ensures
        r == (best matches Some(f) && rank_of(f) == 0),
{
    match best {
        Some(f) => format_rank(f) == 0,
        None => false,
    }
}

/// Whether the alternatives of a track must be fetched in the search for an
/// OGG Vorbis file, given the best OGG format of the original track: always,
/// unless the original already has OGG Vorbis at 320 kbps.
pub fn ogg_alternatives_needed(original: Option<AudioFormat>) -> (r: bool)
    ensures
        r == !(original == Some(AudioFormat::OGG_VORBIS_320)),
{
    match original {
        Some(AudioFormat::OGG_VORBIS_320) => false,
        _ => true,
    }
}

/// What came of looking up one alternative of a track in the search for an
/// OGG Vorbis file.
#[derive(PartialEq, Eq, Structural, Clone, Copy, Debug)]
pub enum AltLookup {
    /// Its URI does not parse.
    Unparsable,
    /// Its metadata could not be fetched.
    FetchFailed,
    /// Its metadata was fetched; the best OGG format it offers, if any.
    Fetched(Option<AudioFormat>),
}

/// Why no OGG Vorbis source was chosen.
#[derive(PartialEq, Eq, Structural, Clone, Copy, Debug)]
pub enum OggSelectError {
    /// The alternative at this position has a URI that does not parse.
    BadAlternative(usize),
    /// Neither the track nor any fetched alternative offers OGG Vorbis.
    NotAvailable,
}

/// The best OGG format a lookup contributes.
pub open spec fn lookup_format(l: AltLookup) -> Option<AudioFormat> {
    match l {
        AltLookup::Fetched(f) => f,
        _ => None,
    }
}

/// The source of an OGG Vorbis download, given the best OGG format of the
/// track itself and what came of looking up each of its alternatives, in
/// order: the track itself when it has OGG Vorbis at 320 kbps (its
/// alternatives are then not looked at); else an error at the first
/// alternative whose URI does not parse; else the first of the best among
/// the track and the alternatives that were fetched, or `NotAvailable` when
/// none offers OGG Vorbis.
pub fn select_ogg_source(original: Option<AudioFormat>, alternatives: &Vec<AltLookup>) -> (r: Result<Source, OggSelectError>)
    ensures
        original == Some(AudioFormat::OGG_VORBIS_320) ==> r == Ok::<Source, OggSelectError>(Source::Original),
        original != Some(AudioFormat::OGG_VORBIS_320) ==> match r {
            Err(OggSelectError::BadAlternative(i)) => i < alternatives@.len()
                && alternatives@[i as int] == AltLookup::Unparsable
                && forall|j: int| 0 <= j < i ==> alternatives@[j] != AltLookup::Unparsable,
            Err(OggSelectError::NotAvailable) => (forall|j: int| 0 <= j < alternatives@.len() ==> alternatives@[j] != AltLookup::Unparsable)
                && no_candidate(opt_ogg_rank(original), alternatives@.map_values(|l: AltLookup| opt_ogg_rank(lookup_format(l)))),
            Ok(s) => (forall|j: int| 0 <= j < alternatives@.len() ==> alternatives@[j] != AltLookup::Unparsable)
                && first_best(opt_ogg_rank(original), alternatives@.map_values(|l: AltLookup| opt_ogg_rank(lookup_format(l))), s),
        },
{
    if !ogg_alternatives_needed(original) {
        return Ok(Source::Original);
    }
    let mut formats: Vec<Option<AudioFormat>> = Vec::new();
    let mut i: usize = 0;
    while i < alternatives.len()
        invariant
            i <= alternatives.len(),
            formats@ == alternatives@.take(i as int).map_values(|l: AltLookup| lookup_format(l)),
            forall|j: int| 0 <= j < i ==> alternatives@[j] != AltLookup::Unparsable,
            original != Some(AudioFormat::OGG_VORBIS_320),
        decreases alternatives.len() - i,
    {
        let f = match alternatives[i] {
            AltLookup::Unparsable => {
                return Err(OggSelectError::BadAlternative(i));
            },
            AltLookup::FetchFailed => None,
            AltLookup::Fetched(f) => f,
        };
        formats.push(f);
        i = i + 1;
        assert(formats@ =~= alternatives@.take(i as int).map_values(|l: AltLookup| lookup_format(l)));
    }
    assert(alternatives@.take(alternatives.len() as int) =~= alternatives@);
    let ghost fs = formats@;
    assert(fs.map_values(|f: Option<AudioFormat>| opt_ogg_rank(f))
        =~= alternatives@.map_values(|l: AltLookup| opt_ogg_rank(lookup_format(l))));
    match choose_ogg_source(original, &formats) {
        Some(s) => Ok(s),
        None => Err(OggSelectError::NotAvailable),
    }
}

/// Why a header could not be stripped.
#[derive(Debug)]
pub enum StreamError {
    /// The input ended inside the header.
    TruncatedHeader { header_len: usize, available: usize },
}

/// What the copy writes: everything after the header, or nothing when the
/// copy buffer has no room.
pub open spec fn stripped(input: Seq<u8>, header_len: nat, buf_size: nat) -> Seq<u8> {
    if buf_size == 0 {
        Seq::empty()
    } else {
        input.skip(header_len as int)
    }
}

/// Skips the first `header_len` bytes of `input`, then appends the rest to
/// `output` in chunks of `buf_size` bytes. Returns the number of bytes
/// written; fails, writing nothing, when `input` is shorter than the header.
pub fn strip_header_and_copy(input: &Vec<u8>, output: &mut Vec<u8>, header_len: usize, buf_size: usize)
    -> (r: Result<usize, StreamError>)
    ensures
        input@.len() < header_len ==> final(output)@ == old(output)@
            && r == Err::<usize, StreamError>((StreamError::TruncatedHeader { header_len: header_len, available: input@.len() as usize })),
        input@.len() >= header_len ==> r == Ok::<usize, StreamError>(stripped(input@, header_len as nat, buf_size as nat).len() as usize)
            && final(output)@ == old(output)@ + stripped(input@, header_len as nat, buf_size as nat),
{
    if input.len() < header_len {
        return Err(StreamError::TruncatedHeader { header_len, available: input.len() });
    }
    if buf_size == 0 {
        assert(old(output)@ + Seq::<u8>::empty() =~= old(output)@);
        return Ok(0);
    }
    let ghost start = output@;
    let mut pos: usize = header_len;
    let mut total: usize = 0;
    while pos < input.len()
        invariant
            header_len <= pos <= input.len(),
            buf_size > 0,
            total == pos - header_len,
            output@ == start + input@.subrange(header_len as int, pos as int),
        decreases input.len() - pos,
    {
        let n = if input.len() - pos < buf_size { input.len() - pos } else { buf_size };
        let mut k: usize = 0;
        while k < n
            invariant
                header_len <= pos,
                pos + n <= input.len(),
                k <= n,
                output@ == start + input@.subrange(header_len as int, (pos + k) as int),
            decreases n - k,
        {
            output.push(input[pos + k]);
            k = k + 1;
            assert(output@ =~= start + input@.subrange(header_len as int, (pos + k) as int));
        }
        pos = pos + n;
        total = total + n;
    }
    assert(input@.subrange(header_len as int, input.len() as int) =~= input@.skip(header_len as int));
    Ok(total)
}

/// Retry parameters for transient audio download failures.
#[derive(Debug)]
pub struct RetryConfig {
    /// Maximum number of attempts (the first try included).
    pub max_attempts: u32,
    /// Base delay in milliseconds; the delay before attempt `n` (counting
    /// from 0) is `min(base_delay_ms * 2^(n-1), max_delay_ms)`.
    pub base_delay_ms: u64,
    /// Hard ceiling on the computed delay, in milliseconds.
    pub max_delay_ms: u64,
}

impl Default for RetryConfig {
    fn default() -> (c: Self)
        ensures
            c.max_attempts == 5,
            c.base_delay_ms == 5000,
            c.max_delay_ms == 30000,
    {
        RetryConfig { max_attempts: 5, base_delay_ms: 5000, max_delay_ms: 30000 }
    }
}

impl Clone for RetryConfig {
    fn clone(&self) -> (c: Self)
        ensures
            c == *self,
    {
        RetryConfig {
            max_attempts: self.max_attempts,
            base_delay_ms: self.base_delay_ms,
            max_delay_ms: self.max_delay_ms,
        }
    }
}

/// `base * 2^n`.
pub open spec fn doubled(base: nat, n: nat) -> nat
    decreases n,
{
    if n == 0 {
        base
    } else {
        2 * doubled(base, (n - 1) as nat)
    }
}

proof fn lemma_doubled_monotone(base: nat, m: nat, n: nat)
    requires
        m <= n,
    ensures
        doubled(base, m) <= doubled(base, n),
    decreases n,
{
    if m < n {
        lemma_doubled_monotone(base, m, (n - 1) as nat);
    }
}

/// The smaller of two numbers.
pub open spec fn min_nat(a: nat, b: nat) -> nat {
    if a <= b {
        a
    } else {
        b
    }
}

/// The retry delay never shrinks from one attempt to the next: the delay
/// before a later attempt is at least the delay before an earlier one.
pub proof fn law_retry_delay_monotone(base: nat, max: nat, m: nat, n: nat)
    requires
        m <= n,
    ensures
        min_nat(doubled(base, m), max) <= min_nat(doubled(base, n), max),
{
    lemma_doubled_monotone(base, m, n);
}

/// What to do after a failed attempt.
#[derive(PartialEq, Eq, Structural, Clone, Copy, Debug)]
pub enum RetryStep {
    /// Wait `delay_ms`, then make attempt `next_attempt` (counting from 0).
    RetryAfter { next_attempt: u32, delay_ms: u64 },
    /// The error is not transient: give up with it now.
    FailNow,
    /// The attempts are used up: give up with the last error.
    Exhausted,
}

/// Messages of transient failures contain one of these.
pub open spec fn retriable(msg: Seq<char>) -> bool {
    contains_seq(msg, "audio key error"@) || contains_seq(msg, "Service unavailable"@)
        || contains_seq(msg, "timeout"@) || contains_seq(msg, "Deadline expired"@)
}

/// Whether an error message describes a transient failure worth retrying.
pub fn is_retriable_error(error_msg: &str) -> (r: bool)
    ensures
        r == retriable(error_msg@),
{
    let m = chars_of(error_msg);
    contains_chars(&m, &chars_of("audio key error")) || contains_chars(&m, &chars_of("Service unavailable"))
        || contains_chars(&m, &chars_of("timeout")) || contains_chars(&m, &chars_of("Deadline expired"))
}

/// The step after attempt `failed` failed with a message that is transient
/// or not, when there are `max_attempts` attempts in all and the delay before
/// attempt `failed + 1` is `delay`.
pub open spec fn step_after(failed: u32, max_attempts: u32, transient: bool, delay: u64) -> RetryStep {
    if !transient {
        RetryStep::FailNow
    } else if failed + 1 < max_attempts {
        RetryStep::RetryAfter { next_attempt: (failed + 1) as u32, delay_ms: delay }
    } else {
        RetryStep::Exhausted
    }
}

/// A retry is only ever scheduled for the attempt right after the failed
/// one, and never beyond the configured number of attempts.
pub proof fn law_retries_bounded(failed: u32, max_attempts: u32, transient: bool, delay: u64)
    ensures
        step_after(failed, max_attempts, transient, delay) matches RetryStep::RetryAfter { next_attempt, .. }
            ==> next_attempt == failed + 1 && next_attempt < max_attempts && transient,
{
}

impl RetryConfig {
    /// The delay in milliseconds before attempt `attempt` (counting from 0,
    /// so the first retry is attempt 1): `min(base * 2^(attempt-1), max)`.
    pub fn delay_for_attempt(&self, attempt: u32) -> (r: u64)
        requires
            attempt >= 1,
        ensures
            r == min_nat(doubled(self.base_delay_ms as nat, (attempt - 1) as nat), self.max_delay_ms as nat),
    {
        let mut d: u64 = self.base_delay_ms;
        let mut i: u32 = 1;
        while i < attempt
            invariant
                1 <= i <= attempt,
                d == doubled(self.base_delay_ms as nat, (i - 1) as nat),
            decreases attempt - i,
        {
            if d >= self.max_delay_ms {
                proof {
                    lemma_doubled_monotone(self.base_delay_ms as nat, (i - 1) as nat, (attempt - 1) as nat);
                }
                return self.max_delay_ms;
            }
            if d > u64::MAX / 2 {
                proof {
                    lemma_doubled_monotone(self.base_delay_ms as nat, i as nat, (attempt - 1) as nat);
                }
                return self.max_delay_ms;
            }
            d = d * 2;
            i = i + 1;
        }
        if d <= self.max_delay_ms {
            d
        } else {
            self.max_delay_ms
        }
    }

    /// What to do after attempt `failed` (counting from 0) failed with
    /// `error_msg`: retry after the configured delay while attempts remain and
    /// the error is transient, else give up.
    pub fn step_after_failure(&self, failed: u32, error_msg: &str) -> (r: RetryStep)
        ensures
            r == step_after(failed, self.max_attempts, retriable(error_msg@),
                if failed < u32::MAX {
                    min_nat(doubled(self.base_delay_ms as nat, failed as nat), self.max_delay_ms as nat) as u64
                } else {
                    0
                }),
    {
        if !is_retriable_error(error_msg) {
            return RetryStep::FailNow;
        }
        if failed < u32::MAX && failed + 1 < self.max_attempts {
            let delay = self.delay_for_attempt(failed + 1);
            RetryStep::RetryAfter { next_attempt: failed + 1, delay_ms: delay }
        } else {
            RetryStep::Exhausted
        }
    }
}

} // verus!
