//! Speech as a WAV file: one channel of 16-bit samples.
use crate::bytes;
use crate::error::ApiError;
use crate::error;
use hound::{SampleFormat, WavSpec, WavWriter};
use std::io::Cursor;
use vstd::prelude::*;

verus! {

/// The errors of `hound`.
#[verifier::external_type_specification]
#[verifier::external_body]
pub struct ExHoundError(hound::Error);

/// The writer of `hound` on a vector of bytes. It collects samples and lays them out as a WAV
/// file.
#[verifier::external_body]
pub struct WavSink<'a> {
    writer: WavWriter<Cursor<&'a mut Vec<u8>>>,
}

/// The number of channels, the sampling rate and the bits of a sample.
pub struct Layout {
    pub channels: u16,
    pub sample_rate: u32,
    pub bits: u16,
}

/// The samples that a writer has taken.
pub uninterp spec fn taken(w: WavSink) -> Seq<i16>;

/// The layout that a writer was made with.
pub uninterp spec fn layout(w: WavSink) -> Layout;

/// The bytes that the vector behind a writer holds when the writer is gone.
pub uninterp spec fn target(w: WavSink) -> Seq<u8>;

/// The bytes of a sample in two's complement, the low one first.
pub open spec fn sample_bytes(s: i16) -> Seq<u8> {
    bytes::le2(if s < 0 {
        s + 65536
    } else {
        s as int
    })
}

/// The bytes of all samples.
pub open spec fn data_bytes(samples: Seq<i16>) -> Seq<u8>
    decreases samples.len(),
{
    if samples.len() == 0 {
        seq![]
    } else {
        data_bytes(samples.drop_last()) + sample_bytes(samples.last())
    }
}

/// The letters `RIFF`.
pub open spec fn riff() -> Seq<u8> {
    seq![0x52u8, 0x49, 0x46, 0x46]
}

/// The letters `WAVE`.
pub open spec fn wave() -> Seq<u8> {
    seq![0x57u8, 0x41, 0x56, 0x45]
}

/// The letters `fmt` and a space.
pub open spec fn fmt_tag() -> Seq<u8> {
    seq![0x66u8, 0x6d, 0x74, 0x20]
}

/// The letters `data`.
pub open spec fn data_tag() -> Seq<u8> {
    seq![0x64u8, 0x61, 0x74, 0x61]
}

/// What stands before `size` bytes of 16-bit integer samples: the RIFF head, the format chunk and
/// the head of the data chunk.
#[verifier::opaque]
pub open spec fn wav_head(size: int, channels: int, sample_rate: int) -> Seq<u8> {
    let frame = 2 * channels;
    riff() + bytes::le4(36 + size) + wave() + fmt_tag() + bytes::le4(16) + bytes::le2(1) + bytes::le2(channels) + bytes::le4(
        sample_rate,
    ) + bytes::le4(sample_rate * frame) + bytes::le2(frame) + bytes::le2(16) + data_tag() + bytes::le4(size)
}

/// The WAV file of 16-bit integer samples.
pub open spec fn wav_file(samples: Seq<i16>, channels: int, sample_rate: int) -> Seq<u8> {
    wav_head(2 * samples.len() as int, channels, sample_rate) + data_bytes(samples)
}

/// `hound::WavWriter::new` on an empty vector, for integer samples. In memory the head is
/// written without fail, and a writer that has taken nothing comes back.
#[verifier::external_body]
fn open<'a>(out: &'a mut Vec<u8>, channels: u16, sample_rate: u32, bits: u16) -> (r: Result<
    WavSink<'a>,
    hound::Error,
>)
    requires
        old(out)@.len() == 0,
        1 <= channels <= 2,
        bits == 16,
        0 < sample_rate,
        sample_rate * 2 * channels <= u32::MAX,
    ensures
        r is Ok,
        r matches Ok(w) ==> final(out)@ == target(w),
        r matches Ok(w) ==> taken(w) == Seq::<i16>::empty(),
        r matches Ok(w) ==> layout(w) == (Layout { channels, sample_rate, bits }),
{
    let sample_format = SampleFormat::Int;
    let spec = WavSpec { channels, sample_rate, bits_per_sample: bits, sample_format };
    match WavWriter::new(Cursor::new(out), spec) {
        Ok(writer) => Ok(WavSink { writer }),
        Err(e) => Err(e),
    }
}

/// `hound::WavWriter::write_sample`. In memory a 16-bit sample is taken without fail.
#[verifier::external_body]
fn put(w: &mut WavSink, sample: i16) -> (r: Result<(), hound::Error>)
    requires
        layout(*old(w)).bits == 16,
        36 + 2 * (taken(*old(w)).len() + 1) <= u32::MAX,
    ensures
        r is Ok,
        taken(*final(w)) == taken(*old(w)).push(sample),
        layout(*final(w)) == layout(*old(w)),
        target(*final(w)) == target(*old(w)),
{
    w.writer.write_sample(sample)
}

/// `hound::WavWriter::finalize`. Whole frames are closed without fail in memory, and the vector
/// behind the writer then holds the file of the samples that were taken.
#[verifier::external_body]
fn close(w: WavSink) -> (r: Result<(), hound::Error>)
    requires
        layout(w).bits == 16,
        1 <= layout(w).channels <= 2,
        36 + 2 * taken(w).len() <= u32::MAX,
        taken(w).len() % layout(w).channels as nat == 0,
    ensures
        r is Ok,
        r is Ok ==> target(w) == wav_file(
            taken(w),
            layout(w).channels as int,
            layout(w).sample_rate as int,
        ),
{
    w.writer.finalize()
}

/// The WAV file of one channel of samples.
pub fn pcm16_to_wav_bytes(samples: &Vec<i16>, sample_rate: u32) -> (r: Result<Vec<u8>, ApiError>)
    requires
        0 < sample_rate < 0x8000_0000,
        36 + 2 * samples@.len() <= u32::MAX,
    ensures
        r is Ok,
        r matches Ok(b) ==> b@ == wav_file(samples@, 1, sample_rate as int),
{
    let mut out: Vec<u8> = Vec::new();
    match open(&mut out, 1, sample_rate, 16) {
        Ok(sink) => {
            let mut w = sink;
            let mut i: usize = 0;
            while i < samples.len()
                invariant
                    i <= samples@.len(),
                    36 + 2 * samples@.len() <= u32::MAX,
                    taken(w) == samples@.take(i as int),
                    layout(w) == (Layout { channels: 1, sample_rate, bits: 16 }),
                    after_borrow(out)@ == target(w),
                decreases samples@.len() - i,
            {
                match put(&mut w, samples[i]) {
                    Ok(_) => {},
                    Err(_) => {
                        return Err(error::internal("wav write failed"));
                    },
                }
                assert(samples@.take(i as int).push(samples@[i as int]) =~= samples@.take(i + 1));
                i = i + 1;
            }
            assert(samples@.take(samples@.len() as int) =~= samples@);
            match close(w) {
                Ok(_) => {},
                Err(_) => {
                    return Err(error::internal("wav finalize failed"));
                },
            }
        },
        Err(_) => {
            return Err(error::internal("wav writer init failed"));
        },
    }
    Ok(out)
}

proof fn lemma_data_bytes(samples: Seq<i16>, i: int)
    requires
        0 <= i < samples.len(),
    ensures
        data_bytes(samples).len() == 2 * samples.len(),
        data_bytes(samples).subrange(2 * i, 2 * i + 2) == sample_bytes(samples[i]),
    decreases samples.len(),
{
    let head = samples.drop_last();
    lemma_data_len(head);
    if i == samples.len() - 1 {
        assert(data_bytes(samples).subrange(2 * i, 2 * i + 2) =~= sample_bytes(samples[i]));
    } else {
        lemma_data_bytes(head, i);
        assert(data_bytes(samples).subrange(2 * i, 2 * i + 2) =~= data_bytes(head).subrange(
            2 * i,
            2 * i + 2,
        ));
    }
}

proof fn lemma_data_len(samples: Seq<i16>)
    ensures
        data_bytes(samples).len() == 2 * samples.len(),
    decreases samples.len(),
{
    if samples.len() > 0 {
        lemma_data_len(samples.drop_last());
    }
}

proof fn lemma_head_len(size: int, channels: int, sample_rate: int)
    ensures
        wav_head(size, channels, sample_rate).len() == 44,
{
    reveal(wav_head);
}

proof fn lemma_sample_bytes(a: i16, b: i16)
    requires
        sample_bytes(a) == sample_bytes(b),
    ensures
        a == b,
{
    assert(sample_bytes(a)[0] == sample_bytes(b)[0]);
    assert(sample_bytes(a)[1] == sample_bytes(b)[1]);
}

/// A file is its 44 bytes of head and two bytes for each sample, and sample `i` stands in the
/// bytes from `44 + 2 * i` on.
pub proof fn wav_file_holds_the_samples(samples: Seq<i16>, channels: int, sample_rate: int, i: int)
    requires
        0 <= i < samples.len(),
    ensures
        wav_file(samples, channels, sample_rate).len() == 44 + 2 * samples.len(),
        wav_file(samples, channels, sample_rate).subrange(44 + 2 * i, 46 + 2 * i) == sample_bytes(
            samples[i],
        ),
{
    let head = wav_head(2 * samples.len() as int, channels, sample_rate);
    lemma_head_len(2 * samples.len() as int, channels, sample_rate);
    lemma_data_bytes(samples, i);
    assert((head + data_bytes(samples)).subrange(44 + 2 * i, 46 + 2 * i) =~= data_bytes(
        samples,
    ).subrange(2 * i, 2 * i + 2));
}

/// Two files at one rate are equal only if their samples are.
pub proof fn wav_file_tells_the_samples(a: Seq<i16>, b: Seq<i16>, channels: int, sample_rate: int)
    requires
        wav_file(a, channels, sample_rate) == wav_file(b, channels, sample_rate),
    ensures
        a == b,
{
    lemma_data_len(a);
    lemma_data_len(b);
    lemma_head_len(2 * a.len() as int, channels, sample_rate);
    lemma_head_len(2 * b.len() as int, channels, sample_rate);
    assert(wav_file(a, channels, sample_rate).len() == 44 + 2 * a.len());
    assert(wav_file(b, channels, sample_rate).len() == 44 + 2 * b.len());
    assert forall|i: int| 0 <= i < a.len() implies a[i] == b[i] by {
        wav_file_holds_the_samples(a, channels, sample_rate, i);
        wav_file_holds_the_samples(b, channels, sample_rate, i);
        lemma_sample_bytes(a[i], b[i]);
    }
    assert(a =~= b);
}

/// The head of a file tells its length, that the samples are integers of 16 bits, the number of
/// channels, the rate, the bytes of a second and of a frame, and the length of the data.
pub proof fn the_head_tells_the_layout(samples: Seq<i16>, channels: int, sample_rate: int)
    ensures
        ({
            let f = wav_file(samples, channels, sample_rate);
            let size = 2 * samples.len() as int;
            &&& f.subrange(0, 4) == seq![0x52u8, 0x49, 0x46, 0x46]
            &&& f.subrange(4, 8) == bytes::le4(36 + size)
            &&& f.subrange(8, 12) == seq![0x57u8, 0x41, 0x56, 0x45]
            &&& f.subrange(12, 16) == seq![0x66u8, 0x6d, 0x74, 0x20]
            &&& f.subrange(16, 20) == bytes::le4(16)
            &&& f.subrange(20, 22) == bytes::le2(1)
            &&& f.subrange(22, 24) == bytes::le2(channels)
            &&& f.subrange(24, 28) == bytes::le4(sample_rate)
            &&& f.subrange(28, 32) == bytes::le4(sample_rate * (2 * channels))
            &&& f.subrange(32, 34) == bytes::le2(2 * channels)
            &&& f.subrange(34, 36) == bytes::le2(16)
            &&& f.subrange(36, 40) == seq![0x64u8, 0x61, 0x74, 0x61]
            &&& f.subrange(40, 44) == bytes::le4(size)
            &&& f.len() == 44 + size
        }),
{
    reveal(wav_head);
    lemma_data_len(samples);
    let f = wav_file(samples, channels, sample_rate);
    let size = 2 * samples.len() as int;
    assert(f.subrange(0, 4) =~= seq![0x52u8, 0x49, 0x46, 0x46]);
    assert(f.subrange(4, 8) =~= bytes::le4(36 + size));
    assert(f.subrange(8, 12) =~= seq![0x57u8, 0x41, 0x56, 0x45]);
    assert(f.subrange(12, 16) =~= seq![0x66u8, 0x6d, 0x74, 0x20]);
    assert(f.subrange(16, 20) =~= bytes::le4(16));
    assert(f.subrange(20, 22) =~= bytes::le2(1));
    assert(f.subrange(22, 24) =~= bytes::le2(channels));
    assert(f.subrange(24, 28) =~= bytes::le4(sample_rate));
    assert(f.subrange(28, 32) =~= bytes::le4(sample_rate * (2 * channels)));
    assert(f.subrange(32, 34) =~= bytes::le2(2 * channels));
    assert(f.subrange(34, 36) =~= bytes::le2(16));
    assert(f.subrange(36, 40) =~= seq![0x64u8, 0x61, 0x74, 0x61]);
    assert(f.subrange(40, 44) =~= bytes::le4(size));
}

/// A sample is written in two's complement with its low byte first.
pub proof fn samples_are_written_low_byte_first(s: i16)
    ensures
        sample_bytes(s).len() == 2,
        s >= 0 ==> sample_bytes(s)[0] + 256 * sample_bytes(s)[1] == s,
        s < 0 ==> sample_bytes(s)[0] + 256 * sample_bytes(s)[1] == s + 65536,
{
}

} // verus!
