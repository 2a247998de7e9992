//! Requests for speech.
use crate::error;
use crate::error::{ApiError, ErrorKind};
use crate::patterns;
use crate::text;
use vstd::prelude::*;
use vstd::string::*;

verus! {

/// The most characters of an input.
pub const MAX_INPUT_CHARS: usize = 5000;

/// The temperature of a request that gives none, 0.4, by the bits of the single-precision value.
pub const DEFAULT_TEMPERATURE: u32 = 0x3ecc_cccd;

/// The highest temperature, 2.0, by its bits.
pub const MAX_TEMPERATURE: u32 = 0x4000_0000;

/// The number of candidates of a request that gives none.
pub const DEFAULT_TOP_K: u32 = 50;

/// A request for speech. The temperature is given by the bits of a single-precision value.
#[derive(Debug)]
pub struct SpeechRequest {
    pub input: String,
    pub voice: Option<String>,
    pub response_format: Option<String>,
    pub temperature: Option<u32>,
    pub top_k: Option<u32>,
}

/// A request whose parts are within their limits.
#[derive(Debug)]
pub struct ValidSpeechRequest {
    pub input: String,
    pub voice: Option<String>,
    pub temperature: u32,
    pub top_k: u32,
}

/// The bits stand for no number: the exponent is the highest and the fraction is not zero.
pub open spec fn is_nan(bits: u32) -> bool {
    bits % 0x8000_0000 > 0x7f80_0000
}

/// The bits stand for a number below zero.
pub open spec fn below_zero(bits: u32) -> bool {
    bits > 0x8000_0000 && !is_nan(bits)
}

/// The bits stand for a number above that of the bits `max`, which is positive.
pub open spec fn above(bits: u32, max: u32) -> bool {
    max < bits < 0x8000_0000 && !is_nan(bits)
}

/// The temperature, moved to the nearest end if it lies outside 0.0 to 2.0; what is no number is
/// kept.
pub open spec fn clamped_temperature(bits: u32) -> u32 {
    if below_zero(bits) {
        0
    } else if above(bits, MAX_TEMPERATURE) {
        MAX_TEMPERATURE
    } else {
        bits
    }
}

/// The temperature, moved to the nearest end if it lies outside 0.0 to 2.0.
pub fn clamp_temperature(bits: u32) -> (r: u32)
    ensures
        r == clamped_temperature(bits),
{
    let nan: bool = bits % 0x8000_0000 > 0x7f80_0000;
    if nan {
        bits
    } else if bits > 0x8000_0000 {
        0
    } else if bits < 0x8000_0000 && bits > MAX_TEMPERATURE {
        MAX_TEMPERATURE
    } else {
        bits
    }
}

/// The input has an allowed number of characters.
pub open spec fn input_fits(r: SpeechRequest) -> bool {
    1 <= r.input@.len() <= MAX_INPUT_CHARS
}

/// The request names no voice, or names it by an identifier.
pub open spec fn voice_fits(r: SpeechRequest) -> bool {
    r.voice matches Some(v) ==> patterns::voice_id(v@)
}

/// The request asks for no format, or for `wav` in letters of either case.
pub open spec fn format_fits(r: SpeechRequest) -> bool {
    r.response_format matches Some(f) ==> f@.map_values(|c: char| text::ascii_lower(c))
        == "wav"@.map_values(|c: char| text::ascii_lower(c))
}

/// Checks a request, fills in what it leaves out and moves what is out of range. The input, the
/// voice and the format are checked in this order.
pub fn validate_speech_request(payload: SpeechRequest) -> (r: Result<ValidSpeechRequest, ApiError>)
    ensures
        match r {
            Ok(v) => {
                &&& input_fits(payload) && voice_fits(payload) && format_fits(payload)
                &&& v.input@ == payload.input@
                &&& text::opt_text(v.voice) == text::opt_text(payload.voice)
                &&& v.temperature == clamped_temperature(
                    match payload.temperature {
                        Some(t) => t,
                        None => DEFAULT_TEMPERATURE,
                    },
                )
                &&& v.top_k == match payload.top_k {
                    Some(k) => if k == 0 {
                        1
                    } else {
                        k
                    },
                    None => DEFAULT_TOP_K,
                }
            },
            Err(e) => if !input_fits(payload) {
                e.says(ErrorKind::BadRequest, "input must be between 1 and 5000 characters"@)
            } else if !voice_fits(payload) {
                e.says(
                    ErrorKind::BadRequest,
                    "invalid voice id '"@ + payload.voice->0@ + "'"@,
                )
            } else {
                !format_fits(payload) && e.says(
                    ErrorKind::BadRequest,
                    "response_format only supports 'wav'"@,
                )
            },
        },
{
    let n: usize = payload.input.as_str().unicode_len();
    if n == 0 || n > MAX_INPUT_CHARS {
        return Err(error::bad_request("input must be between 1 and 5000 characters"));
    }
    match &payload.voice {
        Some(v) => {
            match patterns::validate_voice_id(v.as_str()) {
                Ok(_) => {},
                Err(e) => {
                    return Err(e);
                },
            }
        },
        None => {},
    }
    match &payload.response_format {
        Some(f) => {
            if !text::eq_ignore_ascii_case(f.as_str(), "wav") {
                return Err(error::bad_request("response_format only supports 'wav'"));
            }
        },
        None => {},
    }
    let asked: u32 = match payload.temperature {
        Some(t) => t,
        None => DEFAULT_TEMPERATURE,
    };
    let top_k: u32 = match payload.top_k {
        Some(k) => {
            if k == 0 {
                1
            } else {
                k
            }
        },
        None => DEFAULT_TOP_K,
    };
    Ok(
        ValidSpeechRequest {
            input: payload.input,
            voice: payload.voice,
            temperature: clamp_temperature(asked),
            top_k,
        },
    )
}

/// A clamped temperature is no number, or lies in the range; clamping it again changes nothing.
pub proof fn clamping_is_stable(bits: u32)
    ensures
        is_nan(clamped_temperature(bits)) == is_nan(bits),
        !below_zero(clamped_temperature(bits)),
        !above(clamped_temperature(bits), MAX_TEMPERATURE),
        clamped_temperature(clamped_temperature(bits)) == clamped_temperature(bits),
{
}

/// A temperature from 0.0 to 2.0 is kept, by its bits as they are; a lower one becomes 0.0 and a
/// higher one, infinity with it, 2.0.
pub proof fn temperatures_are_moved_into_the_range(bits: u32)
    ensures
        bits <= 0x4000_0000 ==> clamped_temperature(bits) == bits,
        0x4000_0000 < bits <= 0x7f80_0000 ==> clamped_temperature(bits) == 0x4000_0000,
        0x8000_0000 < bits <= 0xff80_0000 ==> clamped_temperature(bits) == 0,
        bits == 0x8000_0000 ==> clamped_temperature(bits) == bits,
        0x7f80_0000 < bits < 0x8000_0000 || 0xff80_0000 < bits ==> clamped_temperature(bits) == bits,
{
}

proof fn lemma_letter(c: char, small: char)
    requires
        'a' <= small <= 'z',
    ensures
        text::ascii_lower(c) == small <==> c == small || c as u32 + 32 == small as u32,
{
}

/// A format is accepted exactly if it has the three letters of `wav`, each small or capital.
pub proof fn only_wav_is_accepted(r: SpeechRequest)
    ensures
        r.response_format is None ==> format_fits(r),
        r.response_format matches Some(f) ==> (format_fits(r) <==> {
            &&& f@.len() == 3
            &&& f@[0] == 'w' || f@[0] == 'W'
            &&& f@[1] == 'a' || f@[1] == 'A'
            &&& f@[2] == 'v' || f@[2] == 'V'
        }),
{
    reveal_strlit("wav");
    match r.response_format {
        Some(f) => {
            let low = f@.map_values(|c: char| text::ascii_lower(c));
            let want = "wav"@.map_values(|c: char| text::ascii_lower(c));
            assert(want =~= seq!['w', 'a', 'v']);
            if f@.len() == 3 {
                lemma_letter(f@[0], 'w');
                lemma_letter(f@[1], 'a');
                lemma_letter(f@[2], 'v');
                assert(low[0] == text::ascii_lower(f@[0]));
                assert(low[1] == text::ascii_lower(f@[1]));
                assert(low[2] == text::ascii_lower(f@[2]));
                if format_fits(r) {
                    assert(low[0] == want[0] && low[1] == want[1] && low[2] == want[2]);
                } else {
                    assert(!(low =~= want));
                }
            } else {
                assert(low.len() != want.len());
            }
        },
        None => {},
    }
}

/// An input is accepted exactly if it has 1 to 5000 characters, whatever they are.
pub proof fn only_the_length_of_an_input_counts(r: SpeechRequest)
    ensures
        input_fits(r) <==> 0 < r.input@.len() <= 5000,
{
}

/// A voice that is named is accepted exactly if it is named by an identifier, and a request need not
/// name one.
pub proof fn a_voice_is_named_by_an_identifier(r: SpeechRequest)
    ensures
        r.voice is None ==> voice_fits(r),
        r.voice matches Some(v) ==> voice_fits(r) == patterns::voice_id(v@),
{
}

} // verus!
