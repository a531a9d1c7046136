//! Checks on recorded audio before it is transcribed, and the name of the
//! file a recording is converted into.
use vstd::prelude::*;

use crate::text::{chars_of, push_char};

verus! {

/// How many bytes UTF-8 takes for the character `c`.
pub open spec fn utf8_width(c: char) -> nat {
    if (c as u32) < 0x80 {
        1
    } else if (c as u32) < 0x800 {
        2
    } else if (c as u32) < 0x10000 {
        3
    } else {
        4
    }
}

/// How many bytes UTF-8 takes for the characters of `s` from index `k` on.
pub open spec fn utf8_bytes_from(s: Seq<char>, k: int) -> nat
    decreases s.len() - k,
{
    if k < 0 || k >= s.len() {
        0
    } else {
        utf8_width(s[k]) + utf8_bytes_from(s, k + 1)
    }
}

/// Whether the last four bytes of the UTF-8 text `s` are whole characters,
/// those from index `k` on: cutting them off at a byte offset is then
/// cutting at a character boundary.
pub open spec fn last_four_bytes_from(s: Seq<char>, k: int) -> bool {
    0 <= k <= s.len() && utf8_bytes_from(s, k) == 4
}

/// The name of the file that a recording at `path` is converted into: the
/// path without its last four bytes (the extension `.wav`), then
/// `_output.wav`.
pub open spec fn converted_wav_path_text(path: Seq<char>, k: int) -> Seq<char> {
    path.take(k) + "_output.wav"@
}

/// From later to earlier indices the byte counts of the suffixes grow.
proof fn lemma_bytes_from_grow(s: Seq<char>, j: int, i: int)
    requires
        0 <= j < i <= s.len(),
    ensures
        utf8_bytes_from(s, j) > utf8_bytes_from(s, i),
    decreases i - j,
{
    if j + 1 < i {
        lemma_bytes_from_grow(s, j + 1, i);
    }
}

/// The name of the file that the recording `audio_file` is converted into
/// before transcription: `audio_file` without its last four bytes, then
/// `_output.wav`. Cutting the bytes must leave whole characters.
pub fn converted_wav_path(audio_file: &str) -> (r: String)
    requires
        exists|k: int| last_four_bytes_from(audio_file@, k),
    ensures
        forall|k: int|
            last_four_bytes_from(audio_file@, k) ==> r@ == converted_wav_path_text(audio_file@, k),
{
    let chars = chars_of(audio_file);
    let ghost s = audio_file@;
    let ghost k = choose|k: int| last_four_bytes_from(s, k);
    let mut i: usize = chars.len();
    let mut bytes: u32 = 0;
    while bytes < 4
        invariant
            chars@ == s,
            last_four_bytes_from(s, k),
            k <= i <= s.len(),
            bytes == utf8_bytes_from(s, i as int),
        decreases i,
    {
        assert(k < i);
        i = i - 1;
        let c = chars[i];
        let w: u32 = if (c as u32) < 0x80 {
            1
        } else if (c as u32) < 0x800 {
            2
        } else if (c as u32) < 0x10000 {
            3
        } else {
            4
        };
        bytes = bytes + w;
    }
    proof {
        if k < i {
            lemma_bytes_from_grow(s, k, i as int);
        }
        assert forall|k2: int| last_four_bytes_from(s, k2) implies k2 == i by {
            if k2 < i {
                lemma_bytes_from_grow(s, k2, i as int);
            }
            if i < k2 {
                lemma_bytes_from_grow(s, i as int, k2);
            }
        }
    }
    let mut out = String::new();
    let mut j: usize = 0;
    while j < i
        invariant
            chars@ == s,
            j <= i <= s.len(),
            out@ == s.take(j as int),
        decreases i - j,
    {
        push_char(&mut out, chars[j]);
        proof { assert(s.take(j + 1) =~= s.take(j as int).push(s[j as int])); }
        j = j + 1;
    }
    out.append("_output.wav");
    out
}

/// What is wrong with a WAV format for transcription, checked in order:
/// it must be mono, hold integer samples, run at 16 kHz and use 16 bits per
/// sample.
pub open spec fn wav_format_problem_text(
    channels: u16,
    integer_samples: bool,
    sample_rate: u32,
    bits_per_sample: u16,
) -> Option<Seq<char>> {
    if channels != 1 {
        Some("expected mono audio file"@)
    } else if !integer_samples {
        Some("expected integer sample format"@)
    } else if sample_rate != 16000 {
        Some("expected 16KHz sample rate"@)
    } else if bits_per_sample != 16 {
        Some("expected 16 bits per sample"@)
    } else {
        None
    }
}

/// The first thing wrong with a WAV format for transcription, if any.
pub fn wav_format_problem(
    channels: u16,
    integer_samples: bool,
    sample_rate: u32,
    bits_per_sample: u16,
) -> (r: Option<String>)
    ensures
        r is Some <==> wav_format_problem_text(channels, integer_samples, sample_rate, bits_per_sample) is Some,
        r matches Some(m) ==> m@ == wav_format_problem_text(
            channels,
            integer_samples,
            sample_rate,
            bits_per_sample,
        )->0,
{
    if channels != 1 {
        Some(String::from_str("expected mono audio file"))
    } else if !integer_samples {
        Some(String::from_str("expected integer sample format"))
    } else if sample_rate != 16000 {
        Some(String::from_str("expected 16KHz sample rate"))
    } else if bits_per_sample != 16 {
        Some(String::from_str("expected 16 bits per sample"))
    } else {
        None
    }
}

} // verus!
