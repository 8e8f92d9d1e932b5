//! Fixed streaming parameters, the header-stripping copy used for cached OGG
//! files, and the fixed retry schedule of the caching path.

use vstd::prelude::*;
use crate::audio::{doubled, retriable, step_after, stripped, strip_header_and_copy, RetryStep, StreamError};
pub use crate::audio::is_retriable_error;
use vstd::arithmetic::power2::{lemma2_to64, lemma2_to64_rest, lemma_pow2_strictly_increases, lemma_pow2_unfold, pow2};

verus! {

/// Spotify's custom OGG header size in bytes (skipped for standard OGG).
pub const SPOTIFY_OGG_HEADER_END: usize = 0xa7;

/// Streaming bitrate hint in kbit/s.
pub const STREAMING_BUFFER_HINT_KBPS: u32 = 160;

/// Size of the copy buffer.
pub const AUDIO_BUFFER_SIZE: usize = 8192;

/// Retry count listed among the streaming constants. The caching path's
/// schedule itself makes [`STREAM_ATTEMPTS`] attempts.
pub const MAX_RETRIES: u32 = 3;

/// Attempts the caching path makes before it gives up: five, the first try
/// included.
pub const STREAM_ATTEMPTS: u32 = 5;

/// Delay before the first retry; it doubles with each further retry.
pub const RETRY_BASE_DELAY_MS: u64 = 5000;

/// The streaming buffer hint in bytes per second (kbit/s × 1024 / 8).
pub fn streaming_buffer_bytes() -> (r: usize)
    ensures
        r == STREAMING_BUFFER_HINT_KBPS * 1024 / 8,
{
    (STREAMING_BUFFER_HINT_KBPS * 1024 / 8) as usize
}

/// Skips Spotify's OGG header and appends the rest of `input` to `output`,
/// copying through a buffer of [`AUDIO_BUFFER_SIZE`] bytes. Returns the
/// number of bytes written; fails, writing nothing, on input shorter than
/// the header.
pub fn skip_header_and_copy(input: &Vec<u8>, output: &mut Vec<u8>) -> (r: Result<usize, StreamError>)
    ensures
        input@.len() < SPOTIFY_OGG_HEADER_END ==> final(output)@ == old(output)@
            && r == Err::<usize, StreamError>((StreamError::TruncatedHeader { header_len: SPOTIFY_OGG_HEADER_END, available: input@.len() as usize })),
        input@.len() >= SPOTIFY_OGG_HEADER_END ==> r == Ok::<usize, StreamError>((input@.len() - SPOTIFY_OGG_HEADER_END) as usize)
            && final(output)@ == old(output)@ + input@.skip(SPOTIFY_OGG_HEADER_END as int),
{
    strip_header_and_copy(input, output, SPOTIFY_OGG_HEADER_END, AUDIO_BUFFER_SIZE)
}

proof fn lemma_delay_pow2(n: nat)
    ensures
        doubled(5000, n) == 5000 * pow2(n),
    decreases n,
{
    if n == 0 {
        lemma2_to64();
    } else {
        lemma_delay_pow2((n - 1) as nat);
        lemma_pow2_unfold(n);
    }
}

/// The delay before retry number `attempt` (1 for the first retry):
/// `5000 * 2^(attempt-1)` milliseconds, `5000` for attempt 0.
pub fn calculate_retry_delay_ms(attempt: u32) -> (r: u64)
    requires
        attempt <= 52,
    ensures
        r == doubled(RETRY_BASE_DELAY_MS as nat, if attempt == 0 { 0 } else { (attempt - 1) as nat }),
{
    let mut d: u64 = RETRY_BASE_DELAY_MS;
    let mut i: u32 = 1;
    while i < attempt
        invariant
            1 <= i,
            i <= attempt || (attempt == 0 && i == 1),
            attempt <= 52,
            d == doubled(RETRY_BASE_DELAY_MS as nat, (i - 1) as nat),
        decreases attempt - i,
    {
        proof {
            lemma_delay_pow2((i - 1) as nat);
            lemma2_to64();
            lemma2_to64_rest();
            if i - 1 < 50 {
                lemma_pow2_strictly_increases((i - 1) as nat, 50);
            }
            assert(pow2((i - 1) as nat) <= 0x4000000000000);
            assert(d <= 5000 * 0x4000000000000);
        }
        d = d * 2;
        i = i + 1;
    }
    d
}

/// The step after attempt `failed` (counting from 0) of the caching path
/// failed with `error_msg`: the delay is `delay_override_ms` when given, else
/// [`calculate_retry_delay_ms`] of the next attempt.
pub fn stream_step_after_failure(failed: u32, error_msg: &str, delay_override_ms: Option<u64>) -> (r: RetryStep)
    ensures
        r == step_after(failed, STREAM_ATTEMPTS, retriable(error_msg@),
            match delay_override_ms {
                Some(d) => d,
                None => doubled(RETRY_BASE_DELAY_MS as nat, failed as nat) as u64,
            }),
{
    if !is_retriable_error(error_msg) {
        return RetryStep::FailNow;
    }
    if failed < STREAM_ATTEMPTS - 1 {
        let delay = match delay_override_ms {
            Some(d) => d,
            None => calculate_retry_delay_ms(failed + 1),
        };
        RetryStep::RetryAfter { next_attempt: failed + 1, delay_ms: delay }
    } else {
        RetryStep::Exhausted
    }
}

} // verus!
