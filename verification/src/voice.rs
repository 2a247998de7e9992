//! Voices and what is written of them to a file.
use crate::text;
use vstd::prelude::*;
use vstd::string::*;

verus! {

/// The length of a voice embedding.
pub const EMBEDDING_LEN: usize = 128;

/// Where a voice comes from.
#[derive(Clone, Copy, Debug, PartialEq, Eq, Structural)]
pub enum VoiceSource {
    /// It belongs to the installation.
    Base,
    /// A user has added it.
    Custom,
}

/// The numbers that describe a voice: 128 single-precision values, each by its bits.
#[derive(Debug)]
pub struct Embedding {
    bits: Vec<u32>,
}

impl View for Embedding {
    type V = Seq<u32>;

    closed spec fn view(&self) -> Seq<u32> {
        self.bits@
    }
}

impl Embedding {
    #[verifier::type_invariant]
    spec fn full(self) -> bool {
        self.bits@.len() == EMBEDDING_LEN
    }

    /// The embedding with these values, if they are as many as it takes.
    pub fn from_bits(bits: Vec<u32>) -> (r: Option<Embedding>)
        ensures
            r is Some <==> bits@.len() == EMBEDDING_LEN,
            r matches Some(e) ==> e@ == bits@,
    {
        if bits.len() == EMBEDDING_LEN {
            Some(Embedding { bits })
        } else {
            None
        }
    }

    /// The embedding of zeros only.
    pub fn zero() -> (r: Embedding)
        ensures
            r@ == Seq::new(EMBEDDING_LEN as nat, |i: int| 0u32),
    {
        let mut bits: Vec<u32> = Vec::new();
        let mut i: usize = 0;
        while i < EMBEDDING_LEN
            invariant
                i <= EMBEDDING_LEN,
                bits@ == Seq::new(i as nat, |j: int| 0u32),
            decreases EMBEDDING_LEN - i,
        {
            bits.push(0);
            i = i + 1;
            assert(bits@ =~= Seq::new(i as nat, |j: int| 0u32));
        }
        Embedding { bits }
    }

    /// The bits of the values.
    pub fn values(&self) -> (r: &Vec<u32>)
        ensures
            r@ == self@,
            r@.len() == EMBEDDING_LEN,
    {
        proof {
            use_type_invariant(self);
        }
        &self.bits
    }

    /// An embedding of its own with the same values.
    pub fn duplicate(&self) -> (r: Embedding)
        ensures
            r@ == self@,
    {
        proof {
            use_type_invariant(self);
        }
        let bits = copy_bits(&self.bits);
        Embedding { bits }
    }
}

/// A vector of its own with the same values.
pub fn copy_bits(v: &Vec<u32>) -> (r: Vec<u32>)
    ensures
        r@ == v@,
{
    let mut r: Vec<u32> = Vec::new();
    let mut i: usize = 0;
    while i < v.len()
        invariant
            i <= v@.len(),
            r@ == v@.take(i as int),
        decreases v@.len() - i,
    {
        r.push(v[i]);
        i = i + 1;
        assert(r@ =~= v@.take(i as int));
    }
    assert(v@.take(v@.len() as int) =~= v@);
    r
}

/// A voice.
#[derive(Debug)]
pub struct VoiceRecord {
    pub id: String,
    pub description: String,
    pub source: VoiceSource,
    pub embedding: Embedding,
    pub transcript: Option<String>,
}

/// The model of a voice.
pub struct VoiceView {
    pub id: Seq<char>,
    pub description: Seq<char>,
    pub source: VoiceSource,
    pub embedding: Seq<u32>,
    pub transcript: Option<Seq<char>>,
}

impl View for VoiceRecord {
    type V = VoiceView;

    open spec fn view(&self) -> VoiceView {
        VoiceView {
            id: self.id@,
            description: self.description@,
            source: self.source,
            embedding: self.embedding@,
            transcript: text::opt_text(self.transcript),
        }
    }
}

impl VoiceRecord {
    /// A voice of its own with the same contents.
    pub fn duplicate(&self) -> (r: VoiceRecord)
        ensures
            r@ == self@,
    {
        VoiceRecord {
            id: self.id.clone(),
            description: self.description.clone(),
            source: self.source,
            embedding: self.embedding.duplicate(),
            transcript: copy_text(&self.transcript),
        }
    }
}

/// An optional string of its own with the same characters.
pub fn copy_text(t: &Option<String>) -> (r: Option<String>)
    ensures
        text::opt_text(r) == text::opt_text(*t),
{
    match t {
        Some(s) => Some(s.clone()),
        None => None,
    }
}

/// A voice of the installation.
#[derive(Debug)]
pub struct BaseVoice {
    pub id: String,
    pub description: String,
    pub embedding: Embedding,
    pub transcript: Option<String>,
}

impl BaseVoice {
    /// The voice that it is.
    pub open spec fn voice(self) -> VoiceView {
        VoiceView {
            id: self.id@,
            description: self.description@,
            source: VoiceSource::Base,
            embedding: self.embedding@,
            transcript: text::opt_text(self.transcript),
        }
    }
}

/// A line of the list of voices.
#[derive(Debug)]
pub struct VoiceListItem {
    pub id: String,
    pub description: String,
    pub is_default: bool,
    pub source: VoiceSource,
}

/// The model of a line of the list of voices.
pub struct ListItemView {
    pub id: Seq<char>,
    pub description: Seq<char>,
    pub is_default: bool,
    pub source: VoiceSource,
}

impl View for VoiceListItem {
    type V = ListItemView;

    open spec fn view(&self) -> ListItemView {
        ListItemView {
            id: self.id@,
            description: self.description@,
            is_default: self.is_default,
            source: self.source,
        }
    }
}

/// A custom voice as the file of custom voices holds it.
#[derive(Debug)]
pub struct CustomVoiceEntry {
    pub id: String,
    pub description: String,
    pub transcript: String,
    pub embedding: Embedding,
}

/// The model of a custom voice in the file.
pub struct EntryView {
    pub id: Seq<char>,
    pub description: Seq<char>,
    pub transcript: Seq<char>,
    pub embedding: Seq<u32>,
}

impl View for CustomVoiceEntry {
    type V = EntryView;

    open spec fn view(&self) -> EntryView {
        EntryView {
            id: self.id@,
            description: self.description@,
            transcript: self.transcript@,
            embedding: self.embedding@,
        }
    }
}

/// The file of custom voices.
#[derive(Debug)]
pub struct CustomVoiceFile {
    pub default_voice: Option<String>,
    pub voices: Vec<CustomVoiceEntry>,
}

/// The model of the file of custom voices.
pub struct FileView {
    pub default_voice: Option<Seq<char>>,
    pub voices: Seq<EntryView>,
}

impl View for CustomVoiceFile {
    type V = FileView;

    open spec fn view(&self) -> FileView {
        FileView {
            default_voice: text::opt_text(self.default_voice),
            voices: self.voices@.map_values(|e: CustomVoiceEntry| e@),
        }
    }
}

/// A voice to be added.
#[derive(Debug)]
pub struct NewVoiceInput {
    pub id: String,
    pub description: String,
    pub transcript: String,
    pub embedding: Embedding,
    pub set_default: bool,
}

/// The model of a voice to be added.
pub struct NewVoiceView {
    pub entry: EntryView,
    pub set_default: bool,
}

impl View for NewVoiceInput {
    type V = NewVoiceView;

    open spec fn view(&self) -> NewVoiceView {
        NewVoiceView {
            entry: EntryView {
                id: self.id@,
                description: self.description@,
                transcript: self.transcript@,
                embedding: self.embedding@,
            },
            set_default: self.set_default,
        }
    }
}

/// The custom voice of an entry.
pub open spec fn voice_of(e: EntryView) -> VoiceView {
    VoiceView {
        id: e.id,
        description: e.description,
        source: VoiceSource::Custom,
        embedding: e.embedding,
        transcript: Some(e.transcript),
    }
}

/// The models of two voices, of two entries of a file and of two voices to be added agree exactly if
/// all their parts do.
pub proof fn models_hold_every_part(
    a: VoiceRecord,
    b: VoiceRecord,
    c: CustomVoiceEntry,
    d: CustomVoiceEntry,
    e: NewVoiceInput,
    f: NewVoiceInput,
)
    ensures
        a@ == b@ <==> {
            &&& a.id@ == b.id@
            &&& a.description@ == b.description@
            &&& a.source == b.source
            &&& a.embedding@ == b.embedding@
            &&& text::opt_text(a.transcript) == text::opt_text(b.transcript)
        },
        c@ == d@ <==> {
            &&& c.id@ == d.id@
            &&& c.description@ == d.description@
            &&& c.transcript@ == d.transcript@
            &&& c.embedding@ == d.embedding@
        },
        e@ == f@ <==> {
            &&& e.id@ == f.id@
            &&& e.description@ == f.description@
            &&& e.transcript@ == f.transcript@
            &&& e.embedding@ == f.embedding@
            &&& e.set_default == f.set_default
        },
{
}

} // verus!
