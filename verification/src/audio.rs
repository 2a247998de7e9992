//! The sample of a voice: how its file is read, and what is refused of it.
use crate::error;
use crate::error::{ApiError, ErrorKind};
use crate::text;
use crate::voice::{Embedding, EMBEDDING_LEN};
use vstd::prelude::*;
use vstd::string::*;

verus! {

/// The rate of all sound of the service, in samples a second.
pub const SAMPLE_RATE_HZ: u32 = 24000;

/// What stands behind the last dot of a file name.
pub open spec fn extension(name: Seq<char>) -> Option<Seq<char>>
    decreases name.len(),
{
    if name.len() == 0 {
        None
    } else if name.last() == '.' {
        Some(seq![])
    } else {
        match extension(name.drop_last()) {
            Some(e) => Some(e.push(name.last())),
            None => None,
        }
    }
}

proof fn lemma_extension(name: Seq<char>, dot: int)
    requires
        0 <= dot < name.len(),
        name[dot] == '.',
        forall|i: int| dot < i < name.len() ==> name[i] != '.',
    ensures
        extension(name) == Some(name.skip(dot + 1)),
    decreases name.len(),
{
    if dot == name.len() - 1 {
        assert(name.skip(dot + 1) =~= seq![]);
    } else {
        lemma_extension(name.drop_last(), dot);
        assert(name.skip(dot + 1) =~= name.drop_last().skip(dot + 1).push(name.last()));
    }
}

proof fn lemma_no_extension(name: Seq<char>)
    requires
        forall|i: int| 0 <= i < name.len() ==> name[i] != '.',
    ensures
        extension(name) is None,
    decreases name.len(),
{
    if name.len() > 0 {
        lemma_no_extension(name.drop_last());
    }
}

/// What stands behind the last dot of a file name, if it has a dot.
pub fn extension_of(name: &str) -> (r: Option<String>)
    ensures
        text::opt_text(r) == extension(name@),
{
    let cs = text::chars_of(name);
    let n: usize = cs.len();
    let mut i: usize = n;
    while i > 0
        invariant
            i <= n,
            n == cs@.len(),
            cs@ == name@,
            forall|k: int| i <= k < n ==> cs@[k] != '.',
        decreases i,
    {
        i = i - 1;
        if cs[i] == '.' {
            proof {
                lemma_extension(cs@, i as int);
                assert(cs@.subrange(i + 1, n as int) =~= cs@.skip(i + 1));
            }
            return Some(text::string_of(&cs, i + 1, n));
        }
    }
    proof {
        lemma_no_extension(cs@);
    }
    None
}

/// What the sound library makes of a file.
pub enum Probed {
    /// It does not know the format.
    UnknownFormat(String),
    /// The file has no track.
    NoTrack,
    /// The track, with its rate and its number of channels as far as they are known, and why it
    /// cannot be decoded, if so.
    Track { rate: Option<u32>, channels: Option<usize>, codec: Result<(), String> },
}

/// What the sound library makes of the next packet of a track.
pub enum Packet {
    /// Samples, each by the bits of a single-precision value.
    Samples(Vec<u32>),
    /// The source has ended.
    Ended,
    /// The stream starts anew in another form.
    Reset,
    /// The packet cannot be read.
    Unreadable(String),
    /// The packet cannot be decoded.
    Undecodable(String),
}

/// A sound: samples of all channels in turn, by their bits.
pub struct Sound {
    pub samples: Vec<u32>,
    pub rate: u32,
    pub channels: usize,
}

/// A track that is being read.
pub struct TrackReader {
    samples: Vec<u32>,
    rate: u32,
    channels: usize,
}

/// The model of a track that is being read.
pub struct TrackView {
    pub samples: Seq<u32>,
    pub rate: u32,
    pub channels: usize,
}

/// Why a file cannot be read, if so.
pub open spec fn probe_failure(p: Probed) -> Option<Seq<char>> {
    match p {
        Probed::UnknownFormat(e) => Some("unsupported audio format: "@ + e@),
        Probed::NoTrack => Some("missing default audio track"@),
        Probed::Track { rate: None, .. } => Some("cannot detect sample rate"@),
        Probed::Track { codec: Err(e), .. } => Some("unsupported codec: "@ + e@),
        Probed::Track { .. } => None,
    }
}

/// Why a track cannot be read on, if so.
pub open spec fn packet_failure(p: Packet) -> Option<Seq<char>> {
    match p {
        Packet::Samples(_) => None,
        Packet::Ended => None,
        Packet::Reset => Some("audio stream reset is not supported"@),
        Packet::Unreadable(e) => Some("audio read error: "@ + e@),
        Packet::Undecodable(e) => Some("audio decode error: "@ + e@),
    }
}

impl View for TrackReader {
    type V = TrackView;

    closed spec fn view(&self) -> TrackView {
        TrackView { samples: self.samples@, rate: self.rate, channels: self.channels }
    }
}

impl TrackReader {
    /// Starts to read the track that was found; a track of unknown channels has one.
    pub fn open(p: Probed) -> (r: Result<TrackReader, ApiError>)
        ensures
            match r {
                Ok(t) => {
                    &&& probe_failure(p) is None
                    &&& p matches Probed::Track { rate: Some(rate), channels, .. }
                    &&& t@ == (TrackView {
                        samples: seq![],
                        rate,
                        channels: match channels {
                            Some(c) => c,
                            None => 1,
                        },
                    })
                },
                Err(e) => probe_failure(p) matches Some(m) && e.says(ErrorKind::BadRequest, m),
            },
    {
        match p {
            Probed::UnknownFormat(e) => Err(
                ApiError::BadRequest(text::concat2("unsupported audio format: ", e.as_str())),
            ),
            Probed::NoTrack => Err(error::bad_request("missing default audio track")),
            Probed::Track { rate, channels, codec } => {
                let rate: u32 = match rate {
                    Some(v) => v,
                    None => {
                        return Err(error::bad_request("cannot detect sample rate"));
                    },
                };
                match codec {
                    Ok(_) => {},
                    Err(e) => {
                        return Err(
                            ApiError::BadRequest(text::concat2("unsupported codec: ", e.as_str())),
                        );
                    },
                }
                let channels: usize = match channels {
                    Some(c) => c,
                    None => 1,
                };
                Ok(TrackReader { samples: Vec::new(), rate, channels })
            },
        }
    }

    /// Takes the next packet, and tells whether another one is to be read.
    pub fn take(&mut self, p: Packet) -> (r: Result<bool, ApiError>)
        ensures
            match r {
                Ok(more) => packet_failure(p) is None && more == (p is Samples) && final(self)@
                    == match p {
                    Packet::Samples(s) => (TrackView {
                        samples: old(self)@.samples + s@,
                        ..old(self)@
                    }),
                    _ => old(self)@,
                },
                Err(e) => {
                    &&& final(self)@ == old(self)@
                    &&& packet_failure(p) matches Some(m)
                    &&& e.says(ErrorKind::BadRequest, m)
                },
            },
    {
        match p {
            Packet::Samples(s) => {
                let mut more = s;
                self.samples.append(&mut more);
                Ok(true)
            },
            Packet::Ended => Ok(false),
            Packet::Reset => Err(error::bad_request("audio stream reset is not supported")),
            Packet::Unreadable(e) => Err(
                ApiError::BadRequest(text::concat2("audio read error: ", e.as_str())),
            ),
            Packet::Undecodable(e) => Err(
                ApiError::BadRequest(text::concat2("audio decode error: ", e.as_str())),
            ),
        }
    }

    /// The sound that was read, which must have samples.
    pub fn finish(self) -> (r: Result<Sound, ApiError>)
        ensures
            match r {
                Ok(s) => s.samples@ == self@.samples && s.samples@.len() > 0 && s.rate == self@.rate
                    && s.channels == self@.channels,
                Err(e) => self@.samples.len() == 0 && e.says(
                    ErrorKind::BadRequest,
                    "audio sample has no frames"@,
                ),
            },
    {
        if self.samples.len() == 0 {
            return Err(error::bad_request("audio sample has no frames"));
        }
        Ok(Sound { samples: self.samples, rate: self.rate, channels: self.channels })
    }
}

/// Accepts a sound of so many samples for encoding, if it has any.
pub fn check_sample(samples: usize) -> (r: Result<(), ApiError>)
    ensures
        r is Ok <==> samples > 0,
        r matches Err(e) ==> e.says(ErrorKind::BadRequest, "sample audio is empty"@),
{
    if samples == 0 {
        Err(error::bad_request("sample audio is empty"))
    } else {
        Ok(())
    }
}

/// The bits stand for a zero, with either sign.
pub open spec fn zero_bits(b: u32) -> bool {
    b == 0 || b == 0x8000_0000
}

/// All values are zeros.
pub open spec fn all_zero(v: Seq<u32>) -> bool {
    forall|i: int| 0 <= i < v.len() ==> zero_bits(#[trigger] v[i])
}

/// Accepts what the encoder made of a sample, unless it is all zeros.
pub fn check_embedding(e: Embedding) -> (r: Result<Embedding, ApiError>)
    ensures
        match r {
            Ok(v) => v@ == e@ && !all_zero(e@),
            Err(err) => all_zero(e@) && err.says(
                ErrorKind::Internal,
                "encoder generated invalid all-zero embedding"@,
            ),
        },
{
    let v = e.values();
    let mut i: usize = 0;
    while i < EMBEDDING_LEN
        invariant
            i <= EMBEDDING_LEN,
            v@.len() == EMBEDDING_LEN,
            v@ == e@,
            forall|k: int| 0 <= k < i ==> zero_bits(#[trigger] v@[k]),
        ensures
            i <= EMBEDDING_LEN,
            forall|k: int| 0 <= k < i ==> zero_bits(#[trigger] v@[k]),
            i < EMBEDDING_LEN ==> !zero_bits(v@[i as int]),
        decreases EMBEDDING_LEN - i,
    {
        if v[i] != 0 && v[i] != 0x8000_0000 {
            break;
        }
        i = i + 1;
    }
    if i == EMBEDDING_LEN {
        Err(error::internal("encoder generated invalid all-zero embedding"))
    } else {
        Ok(e)
    }
}

/// The extension of a file name is what stands behind its last dot, and a name without a dot has
/// none.
pub proof fn the_extension_stands_behind_the_last_dot(p: Seq<char>, e: Seq<char>)
    requires
        forall|i: int| 0 <= i < e.len() ==> #[trigger] e[i] != '.',
    ensures
        extension(p + seq!['.'] + e) == Some(e),
        extension(e) is None,
{
    let name = p + seq!['.'] + e;
    let dot = p.len() as int;
    assert(name[dot] == '.');
    assert forall|i: int| dot < i < name.len() implies name[i] != '.' by {
        assert(name[i] == e[i - dot - 1]);
    }
    lemma_extension(name, dot);
    assert(name.skip(dot + 1) =~= e);
    lemma_no_extension(e);
}

/// A file can be read exactly if it has a track whose rate is known and that can be decoded; what is
/// wrong with it is looked for in this order, and a cause is told in full.
pub proof fn when_a_file_can_be_read(p: Probed, cause: String, rate: u32, channels: Option<usize>)
    ensures
        probe_failure(p) is None <==> (p matches Probed::Track { rate: Some(_), codec: Ok(_), .. }),
        probe_failure(Probed::UnknownFormat(cause)) == Some("unsupported audio format: "@ + cause@),
        probe_failure(Probed::NoTrack) == Some("missing default audio track"@),
        probe_failure(Probed::Track { rate: None, channels, codec: Err(cause) }) == Some(
            "cannot detect sample rate"@,
        ),
        probe_failure(Probed::Track { rate: None, channels, codec: Ok(()) }) == Some(
            "cannot detect sample rate"@,
        ),
        probe_failure(Probed::Track { rate: Some(rate), channels, codec: Err(cause) }) == Some(
            "unsupported codec: "@ + cause@,
        ),
        packet_failure(Packet::Ended) is None,
        packet_failure(Packet::Reset) == Some("audio stream reset is not supported"@),
        packet_failure(Packet::Unreadable(cause)) == Some("audio read error: "@ + cause@),
        packet_failure(Packet::Undecodable(cause)) == Some("audio decode error: "@ + cause@),
{
}

/// One value that is no zero is enough for an embedding; a zero may have either sign.
pub proof fn one_value_is_enough(v: Seq<u32>, i: int)
    requires
        0 <= i < v.len(),
    ensures
        v[i] != 0 && v[i] != 0x8000_0000 ==> !all_zero(v),
        (forall|k: int| 0 <= k < v.len() ==> #[trigger] v[k] == 0 || v[k] == 0x8000_0000)
            ==> all_zero(v),
{
}

} // verus!
