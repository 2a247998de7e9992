//! The voices of an installation: those that belong to it and those that users have added.
use crate::error::{ApiError, ErrorKind};
use crate::order;
use crate::text;
use crate::voice;
use crate::voice::{
    BaseVoice, CustomVoiceEntry, CustomVoiceFile, Embedding, NewVoiceInput, VoiceListItem,
    VoiceRecord, VoiceSource,
};
use vstd::prelude::*;
use vstd::string::*;

verus! {

/// The voices in the order of their identifiers, and which of them is used by default.
#[derive(Debug)]
pub struct VoiceStore {
    voices: Vec<VoiceRecord>,
    default_voice: String,
}

/// The model of a store.
pub struct StoreView {
    pub voices: Map<Seq<char>, voice::VoiceView>,
    pub default_voice: Seq<char>,
}

spec fn has_id(v: Seq<VoiceRecord>, k: Seq<char>) -> bool {
    exists|i: int| 0 <= i < v.len() && #[trigger] v[i].id@ == k
}

spec fn place(v: Seq<VoiceRecord>, k: Seq<char>) -> int {
    choose|i: int| 0 <= i < v.len() && #[trigger] v[i].id@ == k
}

spec fn voice_map(v: Seq<VoiceRecord>) -> Map<Seq<char>, voice::VoiceView> {
    Map::new(|k: Seq<char>| has_id(v, k), |k: Seq<char>| v[place(v, k)]@)
}

spec fn sorted(v: Seq<VoiceRecord>) -> bool {
    forall|i: int, j: int|
        0 <= i < j < v.len() ==> order::less(#[trigger] v[i].id@, #[trigger] v[j].id@)
}

spec fn transcribed(v: Seq<VoiceRecord>) -> bool {
    forall|i: int|
        0 <= i < v.len() && (#[trigger] v[i]).source == VoiceSource::Custom ==> v[i].transcript is Some
}

/// `k` is the first identifier of the map.
pub open spec fn is_first(m: Map<Seq<char>, voice::VoiceView>, k: Seq<char>) -> bool {
    &&& m.dom().contains(k)
    &&& forall|j: Seq<char>| #[trigger] m.dom().contains(j) ==> j == k || order::less(k, j)
}

/// Each voice stands under its identifier, and each custom one has a transcript.
pub open spec fn valid(m: Map<Seq<char>, voice::VoiceView>) -> bool {
    forall|k: Seq<char>| #[trigger]
        m.dom().contains(k) ==> m[k].id == k && (m[k].source == VoiceSource::Custom ==> m[k].transcript
            is Some)
}

/// The voice of an installation that has none.
pub open spec fn fallback_voice() -> voice::VoiceView {
    voice::VoiceView {
        id: "default_voice"@,
        description: "Fallback default voice"@,
        source: VoiceSource::Base,
        embedding: Seq::new(voice::EMBEDDING_LEN as nat, |i: int| 0u32),
        transcript: Some("xin chao"@),
    }
}

/// The voices under their identifiers; of two with one identifier the later one.
pub open spec fn base_map(base: Seq<BaseVoice>) -> Map<Seq<char>, voice::VoiceView>
    decreases base.len(),
{
    if base.len() == 0 {
        Map::empty()
    } else {
        base_map(base.drop_last()).insert(base.last().id@, base.last().voice())
    }
}

/// The voices of an installation, which has at least one.
pub open spec fn start_map(base: Seq<BaseVoice>) -> Map<Seq<char>, voice::VoiceView> {
    if base.len() == 0 {
        Map::empty().insert("default_voice"@, fallback_voice())
    } else {
        base_map(base)
    }
}

/// The voices with those of a file of custom voices; one whose identifier is taken is left out.
pub open spec fn with_customs(
    m: Map<Seq<char>, voice::VoiceView>,
    entries: Seq<voice::EntryView>,
) -> Map<Seq<char>, voice::VoiceView>
    decreases entries.len(),
{
    if entries.len() == 0 {
        m
    } else {
        let head = with_customs(m, entries.drop_last());
        let e = entries.last();
        if head.dom().contains(e.id) {
            head
        } else {
            head.insert(e.id, voice::voice_of(e))
        }
    }
}

/// `s` is the store for the voices of an installation and a file of custom voices. The default is
/// the one that the file names if there is such a voice, else the first of the installation.
pub open spec fn loaded(base: Seq<BaseVoice>, f: voice::FileView, s: StoreView) -> bool {
    &&& s.voices == with_customs(start_map(base), f.voices)
    &&& match f.default_voice {
        Some(d) => if s.voices.dom().contains(d) {
            s.default_voice == d
        } else {
            is_first(start_map(base), s.default_voice)
        },
        None => is_first(start_map(base), s.default_voice),
    }
}

/// `f` is the file of custom voices for a store: its default, and its custom voices in the order
/// of their identifiers.
pub open spec fn written(s: StoreView, f: voice::FileView) -> bool {
    &&& f.default_voice == Some(s.default_voice)
    &&& forall|i: int, j: int|
        0 <= i < j < f.voices.len() ==> order::less(#[trigger] f.voices[i].id, #[trigger] f.voices[j].id)
    &&& forall|i: int|
        0 <= i < f.voices.len() ==> s.voices.dom().contains(#[trigger] f.voices[i].id) && s.voices[f.voices[i].id]
            == voice::voice_of(f.voices[i])
    &&& forall|k: Seq<char>| #[trigger]
        s.voices.dom().contains(k) && s.voices[k].source == VoiceSource::Custom ==> exists|i: int|
            0 <= i < f.voices.len() && #[trigger] f.voices[i].id == k
}

/// The store after a voice was added.
pub open spec fn after_add(s: StoreView, input: voice::NewVoiceView) -> StoreView {
    StoreView {
        voices: s.voices.insert(input.entry.id, voice::voice_of(input.entry)),
        default_voice: if input.set_default {
            input.entry.id
        } else {
            s.default_voice
        },
    }
}

/// `t` is the store `s` after the voice `id` was deleted. If it was the default, the first voice
/// that is left becomes the default.
pub open spec fn after_delete(s: StoreView, id: Seq<char>, t: StoreView) -> bool {
    &&& t.voices == s.voices.remove(id)
    &&& if s.default_voice != id {
        t.default_voice == s.default_voice
    } else if t.voices.dom() =~= Set::empty() {
        t.default_voice == "default_voice"@
    } else {
        is_first(t.voices, t.default_voice)
    }
}

/// There is a custom voice with this identifier.
pub open spec fn has_custom(s: StoreView, id: Seq<char>) -> bool {
    s.voices.dom().contains(id) && s.voices[id].source == VoiceSource::Custom
}

proof fn lemma_entry(v: Seq<VoiceRecord>, i: int)
    requires
        sorted(v),
        0 <= i < v.len(),
    ensures
        voice_map(v).dom().contains(v[i].id@),
        voice_map(v)[v[i].id@] == v[i]@,
{
    let k = v[i].id@;
    assert(has_id(v, k));
    let p = place(v, k);
    order::less_irreflexive(k);
    if p < i {
        assert(order::less(v[p].id@, v[i].id@));
    } else if i < p {
        assert(order::less(v[i].id@, v[p].id@));
    }
}

proof fn lemma_at(v: Seq<VoiceRecord>, k: Seq<char>) -> (i: int)
    requires
        voice_map(v).dom().contains(k),
    ensures
        0 <= i < v.len(),
        v[i].id@ == k,
{
    assert(has_id(v, k));
    place(v, k)
}

proof fn lemma_insert(v: Seq<VoiceRecord>, p: int, r: VoiceRecord)
    requires
        sorted(v),
        0 <= p <= v.len(),
        forall|j: int| 0 <= j < p ==> order::less(#[trigger] v[j].id@, r.id@),
        p < v.len() ==> order::less(r.id@, v[p].id@),
    ensures
        sorted(v.insert(p, r)),
        !voice_map(v).dom().contains(r.id@),
        voice_map(v.insert(p, r)) == voice_map(v).insert(r.id@, r@),
{
    let w = v.insert(p, r);
    assert forall|j: int| p <= j < v.len() implies order::less(r.id@, #[trigger] v[j].id@) by {
        if p < j {
            assert(order::less(v[p].id@, v[j].id@));
            order::less_transitive(r.id@, v[p].id@, v[j].id@);
        }
    }
    assert forall|i: int, j: int| 0 <= i < j < w.len() implies order::less(
        #[trigger] w[i].id@,
        #[trigger] w[j].id@,
    ) by {
        let a = if i < p {
            v[i]
        } else if i == p {
            r
        } else {
            v[i - 1]
        };
        let b = if j < p {
            v[j]
        } else if j == p {
            r
        } else {
            v[j - 1]
        };
        assert(w[i] == a && w[j] == b);
    }
    order::less_irreflexive(r.id@);
    if voice_map(v).dom().contains(r.id@) {
        let i = lemma_at(v, r.id@);
        assert(order::less(v[i].id@, r.id@) || order::less(r.id@, v[i].id@));
    }
    let m = voice_map(v).insert(r.id@, r@);
    let n = voice_map(w);
    assert forall|k: Seq<char>| #[trigger] m.dom().contains(k) implies n.dom().contains(k) && n[k]
        == m[k] by {
        if k == r.id@ {
            lemma_entry(w, p);
        } else {
            let i = lemma_at(v, k);
            lemma_entry(v, i);
            if i < p {
                assert(w[i] == v[i]);
                lemma_entry(w, i);
            } else {
                assert(w[i + 1] == v[i]);
                lemma_entry(w, i + 1);
            }
        }
    }
    assert forall|k: Seq<char>| #[trigger] n.dom().contains(k) implies m.dom().contains(k) by {
        let i = lemma_at(w, k);
        if i < p {
            assert(w[i] == v[i]);
            lemma_entry(v, i);
        } else if i > p {
            assert(w[i] == v[i - 1]);
            lemma_entry(v, i - 1);
        }
    }
    assert(n =~= m);
}

proof fn lemma_update(v: Seq<VoiceRecord>, p: int, r: VoiceRecord)
    requires
        sorted(v),
        0 <= p < v.len(),
        v[p].id@ == r.id@,
    ensures
        sorted(v.update(p, r)),
        voice_map(v.update(p, r)) == voice_map(v).insert(r.id@, r@),
{
    let w = v.update(p, r);
    assert forall|i: int, j: int| 0 <= i < j < w.len() implies order::less(
        #[trigger] w[i].id@,
        #[trigger] w[j].id@,
    ) by {
        assert(order::less(v[i].id@, v[j].id@));
    }
    let m = voice_map(v).insert(r.id@, r@);
    let n = voice_map(w);
    assert forall|k: Seq<char>| #[trigger] m.dom().contains(k) implies n.dom().contains(k) && n[k]
        == m[k] by {
        if k == r.id@ {
            lemma_entry(w, p);
        } else {
            let i = lemma_at(v, k);
            lemma_entry(v, i);
            lemma_entry(w, i);
        }
    }
    assert forall|k: Seq<char>| #[trigger] n.dom().contains(k) implies m.dom().contains(k) by {
        let i = lemma_at(w, k);
        lemma_entry(v, i);
    }
    assert(n =~= m);
}

proof fn lemma_remove(v: Seq<VoiceRecord>, p: int)
    requires
        sorted(v),
        0 <= p < v.len(),
    ensures
        sorted(v.remove(p)),
        voice_map(v.remove(p)) == voice_map(v).remove(v[p].id@),
{
    let w = v.remove(p);
    assert forall|i: int, j: int| 0 <= i < j < w.len() implies order::less(
        #[trigger] w[i].id@,
        #[trigger] w[j].id@,
    ) by {
        let a = if i < p {
            i
        } else {
            i + 1
        };
        let b = if j < p {
            j
        } else {
            j + 1
        };
        assert(w[i] == v[a] && w[j] == v[b]);
        assert(order::less(v[a].id@, v[b].id@));
    }
    let m = voice_map(v).remove(v[p].id@);
    let n = voice_map(w);
    assert forall|k: Seq<char>| #[trigger] m.dom().contains(k) implies n.dom().contains(k) && n[k]
        == m[k] by {
        let i = lemma_at(v, k);
        lemma_entry(v, i);
        if i < p {
            assert(w[i] == v[i]);
            lemma_entry(w, i);
        } else {
            assert(w[i - 1] == v[i]);
            lemma_entry(w, i - 1);
        }
    }
    assert forall|k: Seq<char>| #[trigger] n.dom().contains(k) implies m.dom().contains(k) by {
        let i = lemma_at(w, k);
        order::less_irreflexive(k);
        if i < p {
            assert(w[i] == v[i]);
            assert(order::less(v[i].id@, v[p].id@));
            lemma_entry(v, i);
        } else {
            assert(w[i] == v[i + 1]);
            assert(order::less(v[p].id@, v[i + 1].id@));
            lemma_entry(v, i + 1);
        }
    }
    assert(n =~= m);
}

proof fn lemma_first(v: Seq<VoiceRecord>)
    requires
        sorted(v),
        v.len() > 0,
    ensures
        is_first(voice_map(v), v[0].id@),
{
    lemma_entry(v, 0);
    assert forall|j: Seq<char>| #[trigger] voice_map(v).dom().contains(j) implies j == v[0].id@
        || order::less(v[0].id@, j) by {
        let i = lemma_at(v, j);
        if i > 0 {
            assert(order::less(v[0].id@, v[i].id@));
        }
    }
}

/// Where the voice with this identifier stands or belongs, and whether it stands there.
fn locate(v: &Vec<VoiceRecord>, id: &str) -> (r: (usize, bool))
    requires
        sorted(v@),
    ensures
        r.0 <= v@.len(),
        forall|j: int| 0 <= j < r.0 ==> order::less(#[trigger] v@[j].id@, id@),
        r.1 == voice_map(v@).dom().contains(id@),
        r.1 ==> r.0 < v@.len() && v@[r.0 as int].id@ == id@ && voice_map(v@)[id@] == v@[r.0 as int]@,
        !r.1 && r.0 < v@.len() ==> order::less(id@, v@[r.0 as int].id@),
{
    let mut i: usize = 0;
    while i < v.len() && order::is_less(v[i].id.as_str(), id)
        invariant
            i <= v@.len(),
            forall|j: int| 0 <= j < i ==> order::less(#[trigger] v@[j].id@, id@),
        decreases v@.len() - i,
    {
        i = i + 1;
    }
    if i < v.len() && text::same(v[i].id.as_str(), id) {
        proof {
            lemma_entry(v@, i as int);
        }
        (i, true)
    } else {
        proof {
            if i < v@.len() {
                order::less_total(v@[i as int].id@, id@);
            }
            order::less_irreflexive(id@);
            if voice_map(v@).dom().contains(id@) {
                let k = lemma_at(v@, id@);
                if k > i {
                    assert(order::less(v@[i as int].id@, v@[k].id@));
                    order::less_transitive(id@, v@[i as int].id@, v@[k].id@);
                }
            }
        }
        (i, false)
    }
}

/// Puts a voice under its identifier, in place of one that stands there.
fn put(v: &mut Vec<VoiceRecord>, r: VoiceRecord)
    requires
        sorted(old(v)@),
        transcribed(old(v)@),
        r.source == VoiceSource::Custom ==> r.transcript is Some,
    ensures
        sorted(final(v)@),
        transcribed(final(v)@),
        voice_map(final(v)@) == voice_map(old(v)@).insert(r.id@, r@),
        final(v)@.len() > 0,
{
    let (p, found) = locate(v, r.id.as_str());
    let ghost before = v@;
    if found {
        proof {
            lemma_update(before, p as int, r);
        }
        v.set(p, r);
    } else {
        proof {
            lemma_insert(before, p as int, r);
        }
        v.insert(p, r);
    }
}

impl View for VoiceStore {
    type V = StoreView;

    closed spec fn view(&self) -> StoreView {
        StoreView { voices: voice_map(self.voices@), default_voice: self.default_voice@ }
    }
}

impl VoiceStore {
    /// The voices are in order and each custom one has a transcript.
    pub closed spec fn wf(self) -> bool {
        sorted(self.voices@) && transcribed(self.voices@)
    }

    /// The store without voices.
    pub fn empty() -> (r: VoiceStore)
        ensures
            r.wf(),
            r@ == (StoreView { voices: Map::empty(), default_voice: "default_voice"@ }),
    {
        let r = VoiceStore { voices: Vec::new(), default_voice: text::owned("default_voice") };
        assert(voice_map(r.voices@) =~= Map::empty());
        r
    }

    /// The store for the voices of an installation and a file of custom voices.
    pub fn load(base: &Vec<BaseVoice>, custom: &CustomVoiceFile) -> (r: VoiceStore)
        ensures
            r.wf(),
            loaded(base@, custom@, r@),
    {
        let mut voices: Vec<VoiceRecord> = Vec::new();
        assert(voice_map(voices@) =~= Map::empty());
        let mut i: usize = 0;
        assert(base@.take(0) =~= seq![]);
        while i < base.len()
            invariant
                i <= base@.len(),
                sorted(voices@),
                transcribed(voices@),
                voice_map(voices@) == base_map(base@.take(i as int)),
                (i > 0) == (voices@.len() > 0),
            decreases base@.len() - i,
        {
            let b = &base[i];
            assert(base@.take(i + 1).drop_last() =~= base@.take(i as int));
            let record = VoiceRecord {
                id: b.id.clone(),
                description: b.description.clone(),
                source: VoiceSource::Base,
                embedding: b.embedding.duplicate(),
                transcript: voice::copy_text(&b.transcript),
            };
            put(&mut voices, record);
            i = i + 1;
        }
        assert(base@.take(base@.len() as int) =~= base@);
        if voices.len() == 0 {
            let record = VoiceRecord {
                id: text::owned("default_voice"),
                description: text::owned("Fallback default voice"),
                source: VoiceSource::Base,
                embedding: Embedding::zero(),
                transcript: Some(text::owned("xin chao")),
            };
            assert(record@ == fallback_voice());
            put(&mut voices, record);
        }
        assert(voice_map(voices@) == start_map(base@));
        proof {
            lemma_first(voices@);
        }
        let first = voices[0].id.clone();
        let ghost start = voice_map(voices@);
        let ghost entries = custom@.voices;
        i = 0;
        assert(entries.take(0) =~= seq![]);
        while i < custom.voices.len()
            invariant
                i <= custom.voices@.len(),
                entries == custom@.voices,
                sorted(voices@),
                transcribed(voices@),
                voice_map(voices@) == with_customs(start, entries.take(i as int)),
            decreases custom.voices@.len() - i,
        {
            let e = &custom.voices[i];
            assert(entries.take(i + 1).drop_last() =~= entries.take(i as int));
            assert(entries.take(i + 1).last() == e@);
            let (p, found) = locate(&voices, e.id.as_str());
            if !found {
                let record = VoiceRecord {
                    id: e.id.clone(),
                    description: e.description.clone(),
                    source: VoiceSource::Custom,
                    embedding: e.embedding.duplicate(),
                    transcript: Some(e.transcript.clone()),
                };
                proof {
                    lemma_insert(voices@, p as int, record);
                }
                voices.insert(p, record);
            }
            i = i + 1;
        }
        assert(entries.take(custom.voices@.len() as int) =~= entries);
        let default_voice = match &custom.default_voice {
            Some(d) => {
                let (_p, found) = locate(&voices, d.as_str());
                if found {
                    d.clone()
                } else {
                    first
                }
            },
            None => first,
        };
        VoiceStore { voices, default_voice }
    }

    /// The identifier of the default voice.
    pub fn default_voice(&self) -> (r: &str)
        ensures
            r@ == self@.default_voice,
    {
        self.default_voice.as_str()
    }

    /// The list of the voices in the order of their identifiers.
    pub fn list(&self) -> (r: Vec<VoiceListItem>)
        requires
            self.wf(),
        ensures
            forall|i: int, j: int|
                0 <= i < j < r@.len() ==> order::less(#[trigger] r@[i].id@, #[trigger] r@[j].id@),
            forall|i: int|
                0 <= i < r@.len() ==> {
                    let item = (#[trigger] r@[i])@;
                    &&& self@.voices.dom().contains(item.id)
                    &&& item == (voice::ListItemView {
                        id: item.id,
                        description: self@.voices[item.id].description,
                        is_default: item.id == self@.default_voice,
                        source: self@.voices[item.id].source,
                    })
                },
            forall|k: Seq<char>| #[trigger]
                self@.voices.dom().contains(k) ==> exists|i: int|
                    0 <= i < r@.len() && #[trigger] r@[i].id@ == k,
            forall|i: int, j: int|
                0 <= i < j < r@.len() ==> !((#[trigger] r@[i]).is_default && (
                #[trigger] r@[j]).is_default),
            default_exists(self@) ==> exists|i: int|
                0 <= i < r@.len() && (#[trigger] r@[i]).is_default,
    {
        let mut r: Vec<VoiceListItem> = Vec::new();
        let mut i: usize = 0;
        while i < self.voices.len()
            invariant
                i <= self.voices@.len(),
                r@.len() == i,
                forall|j: int|
                    0 <= j < i ==> (#[trigger] r@[j])@ == (voice::ListItemView {
                        id: self.voices@[j].id@,
                        description: self.voices@[j].description@,
                        is_default: self.voices@[j].id@ == self.default_voice@,
                        source: self.voices@[j].source,
                    }),
            decreases self.voices@.len() - i,
        {
            let v = &self.voices[i];
            r.push(
                VoiceListItem {
                    id: v.id.clone(),
                    description: v.description.clone(),
                    is_default: text::same(v.id.as_str(), self.default_voice.as_str()),
                    source: v.source,
                },
            );
            i = i + 1;
        }
        proof {
            assert forall|j: int| 0 <= j < r@.len() implies r@[j].id@ == self.voices@[j].id@ && voice_map(
                self.voices@,
            ).dom().contains(#[trigger] r@[j].id@) && voice_map(self.voices@)[r@[j].id@]
                == self.voices@[j]@ by {
                assert(r@[j]@.id == self.voices@[j].id@);
                lemma_entry(self.voices@, j);
            }
            assert forall|a: int, b: int| 0 <= a < b < r@.len() implies order::less(
                #[trigger] r@[a].id@,
                #[trigger] r@[b].id@,
            ) by {
                assert(order::less(self.voices@[a].id@, self.voices@[b].id@));
            }
            assert forall|k: Seq<char>| #[trigger] self@.voices.dom().contains(k) implies exists|
                j: int,
            |
                0 <= j < r@.len() && #[trigger] r@[j].id@ == k by {
                let j = lemma_at(self.voices@, k);
                assert(r@[j].id@ == k);
            }
            assert forall|a: int, b: int| 0 <= a < b < r@.len() implies !((
            #[trigger] r@[a]).is_default && (#[trigger] r@[b]).is_default) by {
                assert(r@[a]@.is_default == (r@[a]@.id == self@.default_voice));
                assert(r@[b]@.is_default == (r@[b]@.id == self@.default_voice));
                assert(order::less(r@[a].id@, r@[b].id@));
                order::less_irreflexive(r@[a].id@);
            }
            if default_exists(self@) {
                let j = lemma_at(self.voices@, self@.default_voice);
                assert(r@[j]@.is_default);
            }
        }
        r
    }

    /// The voice that a request names, or the default one if it names none.
    pub fn resolve_voice(&self, requested: Option<&str>) -> (r: Result<VoiceRecord, ApiError>)
        requires
            self.wf(),
        ensures
            ({
                let id = match requested {
                    Some(s) => s@,
                    None => self@.default_voice,
                };
                match r {
                    Ok(v) => self@.voices.dom().contains(id) && v@ == self@.voices[id],
                    Err(e) => !self@.voices.dom().contains(id) && e.says(
                        ErrorKind::BadRequest,
                        "voice '"@ + id + "' not found"@,
                    ),
                }
            }),
    {
        let id: &str = match requested {
            Some(s) => s,
            None => self.default_voice.as_str(),
        };
        let (p, found) = locate(&self.voices, id);
        if found {
            Ok(self.voices[p].duplicate())
        } else {
            Err(ApiError::BadRequest(text::concat3("voice '", id, "' not found")))
        }
    }

    /// Adds a custom voice, unless its identifier is taken.
    pub fn add_custom_voice(&mut self, input: NewVoiceInput) -> (r: Result<(), ApiError>)
        requires
            old(self).wf(),
        ensures
            final(self).wf(),
            match r {
                Ok(_) => !old(self)@.voices.dom().contains(input.id@) && final(self)@ == after_add(
                    old(self)@,
                    input@,
                ),
                Err(e) => old(self)@.voices.dom().contains(input.id@) && final(self)@ == old(self)@
                    && e.says(ErrorKind::Conflict, "voice '"@ + input.id@ + "' already exists"@),
            },
    {
        let (p, found) = locate(&self.voices, input.id.as_str());
        if found {
            return Err(
                ApiError::Conflict(
                    text::concat3("voice '", input.id.as_str(), "' already exists"),
                ),
            );
        }
        let record = VoiceRecord {
            id: input.id.clone(),
            description: input.description,
            source: VoiceSource::Custom,
            embedding: input.embedding,
            transcript: Some(input.transcript),
        };
        proof {
            lemma_insert(self.voices@, p as int, record);
        }
        self.voices.insert(p, record);
        if input.set_default {
            self.default_voice = input.id;
        }
        Ok(())
    }

    /// Deletes a custom voice. Any other identifier is refused.
    pub fn delete_custom_voice(&mut self, voice_id: &str) -> (r: Result<(), ApiError>)
        requires
            old(self).wf(),
        ensures
            final(self).wf(),
            match r {
                Ok(_) => has_custom(old(self)@, voice_id@) && after_delete(
                    old(self)@,
                    voice_id@,
                    final(self)@,
                ),
                Err(e) => !has_custom(old(self)@, voice_id@) && final(self)@ == old(self)@
                    && e.says(
                    ErrorKind::NotFound,
                    "custom voice '"@ + voice_id@ + "' not found"@,
                ),
            },
    {
        let (p, found) = locate(&self.voices, voice_id);
        if !found || self.voices[p].source != VoiceSource::Custom {
            return Err(
                ApiError::NotFound(text::concat3("custom voice '", voice_id, "' not found")),
            );
        }
        proof {
            lemma_remove(self.voices@, p as int);
        }
        let ghost before = self.voices@;
        let _gone = self.voices.remove(p);
        assert(transcribed(self.voices@)) by {
            assert forall|i: int|
                0 <= i < self.voices@.len() && (#[trigger] self.voices@[i]).source
                    == VoiceSource::Custom implies self.voices@[i].transcript is Some by {
                let j = if i < p {
                    i
                } else {
                    i + 1
                };
                assert(self.voices@[i] == before[j]);
            }
        }
        if text::same(self.default_voice.as_str(), voice_id) {
            if self.voices.len() > 0 {
                proof {
                    lemma_first(self.voices@);
                }
                self.default_voice = self.voices[0].id.clone();
            } else {
                assert(voice_map(self.voices@).dom() =~= Set::empty());
                self.default_voice = text::owned("default_voice");
            }
        }
        Ok(())
    }

    /// The file of custom voices for this store.
    pub fn custom_file(&self) -> (r: CustomVoiceFile)
        requires
            self.wf(),
        ensures
            written(self@, r@),
    {
        let mut entries: Vec<CustomVoiceEntry> = Vec::new();
        let ghost mut from: Seq<int> = seq![];
        let mut i: usize = 0;
        while i < self.voices.len()
            invariant
                i <= self.voices@.len(),
                self.wf(),
                from.len() == entries@.len(),
                forall|j: int| 0 <= j < from.len() ==> 0 <= #[trigger] from[j] < i,
                forall|a: int, b: int| 0 <= a < b < from.len() ==> from[a] < from[b],
                forall|j: int|
                    0 <= j < from.len() ==> voice::voice_of((#[trigger] entries@[j])@)
                        == self.voices@[from[j]]@,
                forall|k: int|
                    0 <= k < i && (#[trigger] self.voices@[k]).source == VoiceSource::Custom
                        ==> exists|j: int| 0 <= j < from.len() && #[trigger] from[j] == k,
            decreases self.voices@.len() - i,
        {
            let v = &self.voices[i];
            let ghost old_from = from;
            let ghost old_entries = entries@;
            if v.source == VoiceSource::Custom {
                let transcript = match &v.transcript {
                    Some(t) => t.clone(),
                    None => String::new(),
                };
                let entry = CustomVoiceEntry {
                    id: v.id.clone(),
                    description: v.description.clone(),
                    transcript,
                    embedding: v.embedding.duplicate(),
                };
                assert(voice::voice_of(entry@) == v@);
                entries.push(entry);
                proof {
                    from = from.push(i as int);
                    assert forall|j: int| 0 <= j < from.len() implies voice::voice_of(
                        (#[trigger] entries@[j])@,
                    ) == self.voices@[from[j]]@ by {
                        if j < old_from.len() {
                            assert(entries@[j] == old_entries[j]);
                        }
                    }
                    assert(from[old_from.len() as int] == i);
                    assert forall|k: int|
                        0 <= k < i + 1 && (#[trigger] self.voices@[k]).source
                            == VoiceSource::Custom implies exists|j: int|
                        0 <= j < from.len() && #[trigger] from[j] == k by {
                        if k < i {
                            let j = choose|j: int|
                                0 <= j < old_from.len() && #[trigger] old_from[j] == k;
                            assert(from[j] == k);
                        }
                    }
                }
            }
            i = i + 1;
        }
        let r = CustomVoiceFile {
            default_voice: Some(self.default_voice.clone()),
            voices: entries,
        };
        proof {
            let f = r@;
            let v = self.voices@;
            assert forall|j: int| 0 <= j < f.voices.len() implies (#[trigger] f.voices[j]).id
                == v[from[j]].id@ && voice_map(v).dom().contains(f.voices[j].id) && voice_map(
                v,
            )[f.voices[j].id] == voice::voice_of(f.voices[j]) by {
                assert(f.voices[j] == entries@[j]@);
                assert(voice::voice_of(entries@[j]@) == v[from[j]]@);
                lemma_entry(v, from[j]);
            }
            assert forall|a: int, b: int| 0 <= a < b < f.voices.len() implies order::less(
                #[trigger] f.voices[a].id,
                #[trigger] f.voices[b].id,
            ) by {
                assert(order::less(v[from[a]].id@, v[from[b]].id@));
            }
            assert forall|k: Seq<char>| #[trigger]
                self@.voices.dom().contains(k) && self@.voices[k].source
                    == VoiceSource::Custom implies exists|j: int|
                0 <= j < f.voices.len() && #[trigger] f.voices[j].id == k by {
                let p = lemma_at(v, k);
                lemma_entry(v, p);
                let j = choose|j: int| 0 <= j < from.len() && #[trigger] from[j] == p;
                assert(f.voices[j].id == k);
            }
        }
        r
    }
}

/// The store can say a request that names no voice: its default voice exists.
pub open spec fn default_exists(s: StoreView) -> bool {
    s.voices.dom().contains(s.default_voice)
}

/// The voices that belong to the installation.
pub open spec fn base_part(m: Map<Seq<char>, voice::VoiceView>) -> Map<Seq<char>, voice::VoiceView> {
    m.restrict(Set::new(|k: Seq<char>| m.dom().contains(k) && m[k].source == VoiceSource::Base))
}

proof fn lemma_start(base: Seq<BaseVoice>)
    ensures
        valid(start_map(base)),
        forall|k: Seq<char>| #[trigger]
            start_map(base).dom().contains(k) ==> start_map(base)[k].source == VoiceSource::Base,
    decreases base.len(),
{
    if base.len() > 1 {
        lemma_start(base.drop_last());
    } else if base.len() == 1 {
        assert(base_map(base.drop_last()) == Map::<Seq<char>, voice::VoiceView>::empty());
    }
}

proof fn lemma_customs(m: Map<Seq<char>, voice::VoiceView>, entries: Seq<voice::EntryView>)
    ensures
        forall|k: Seq<char>| #[trigger]
            m.dom().contains(k) ==> with_customs(m, entries).dom().contains(k) && with_customs(
                m,
                entries,
            )[k] == m[k],
        forall|i: int|
            0 <= i < entries.len() ==> with_customs(m, entries).dom().contains(
                #[trigger] entries[i].id,
            ),
        forall|k: Seq<char>| #[trigger]
            with_customs(m, entries).dom().contains(k) && !m.dom().contains(k) ==> exists|i: int|
                0 <= i < entries.len() && #[trigger] entries[i].id == k && with_customs(
                    m,
                    entries,
                )[k] == voice::voice_of(entries[i]),
    decreases entries.len(),
{
    if entries.len() > 0 {
        let rest = entries.drop_last();
        let head = with_customs(m, rest);
        let all = with_customs(m, entries);
        lemma_customs(m, rest);
        assert forall|i: int| 0 <= i < entries.len() implies all.dom().contains(
            #[trigger] entries[i].id,
        ) by {
            if i < rest.len() {
                assert(rest[i].id == entries[i].id);
            }
        }
        assert forall|k: Seq<char>| #[trigger]
            all.dom().contains(k) && !m.dom().contains(k) implies exists|i: int|
            0 <= i < entries.len() && #[trigger] entries[i].id == k && all[k] == voice::voice_of(
                entries[i],
            ) by {
            if head.dom().contains(k) {
                let i = choose|i: int|
                    0 <= i < rest.len() && #[trigger] rest[i].id == k && head[k]
                        == voice::voice_of(rest[i]);
                assert(entries[i].id == k);
            } else {
                assert(entries[entries.len() - 1].id == k);
            }
        }
    }
}

/// No voice of a file takes the place of one of the installation, and the default voice of a
/// loaded store exists.
pub proof fn loading_keeps_the_base_voices(
    base: Seq<BaseVoice>,
    f: voice::FileView,
    s: StoreView,
)
    requires
        loaded(base, f, s),
    ensures
        base_part(s.voices) == start_map(base),
        valid(s.voices),
        default_exists(s),
{
    let m = start_map(base);
    lemma_start(base);
    lemma_customs(m, f.voices);
    assert forall|k: Seq<char>| base_part(s.voices).dom().contains(k) implies m.dom().contains(
        k,
    ) by {
        if !m.dom().contains(k) {
            assert(s.voices.dom().contains(k));
        }
    }
    assert forall|k: Seq<char>| m.dom().contains(k) implies base_part(s.voices).dom().contains(k)
        && base_part(s.voices)[k] == m[k] by {
        assert(s.voices.dom().contains(k));
    }
    assert(base_part(s.voices) =~= m);
    assert forall|k: Seq<char>| #[trigger] s.voices.dom().contains(k) implies s.voices[k].id == k
        && (s.voices[k].source == VoiceSource::Custom ==> s.voices[k].transcript is Some) by {
        if !m.dom().contains(k) {
            let i = choose|i: int|
                0 <= i < f.voices.len() && #[trigger] f.voices[i].id == k && s.voices[k]
                    == voice::voice_of(f.voices[i]);
        }
    }
}

/// Loading the file that was written for a store, beside the same voices of the installation,
/// gives the store back: its voices, and its default if that exists.
pub proof fn loading_undoes_writing(
    s: StoreView,
    base: Seq<BaseVoice>,
    f: voice::FileView,
    t: StoreView,
)
    requires
        valid(s.voices),
        base_part(s.voices) == start_map(base),
        written(s, f),
        loaded(base, f, t),
    ensures
        t.voices == s.voices,
        default_exists(s) ==> t == s,
{
    let m = start_map(base);
    lemma_start(base);
    lemma_customs(m, f.voices);
    assert forall|k: Seq<char>| t.voices.dom().contains(k) implies #[trigger] s.voices.dom().contains(
        k,
    ) && t.voices[k] == s.voices[k] by {
        if m.dom().contains(k) {
            assert(base_part(s.voices).dom().contains(k));
            assert(base_part(s.voices)[k] == s.voices[k]);
        } else {
            let i = choose|i: int|
                0 <= i < f.voices.len() && #[trigger] f.voices[i].id == k && t.voices[k]
                    == voice::voice_of(f.voices[i]);
            assert(s.voices[f.voices[i].id] == voice::voice_of(f.voices[i]));
        }
    }
    assert forall|k: Seq<char>| #[trigger] s.voices.dom().contains(k) implies t.voices.dom().contains(
        k,
    ) by {
        if s.voices[k].source == VoiceSource::Base {
            assert(base_part(s.voices).dom().contains(k));
        } else {
            let i = choose|i: int| 0 <= i < f.voices.len() && #[trigger] f.voices[i].id == k;
            assert(t.voices.dom().contains(f.voices[i].id));
        }
    }
    assert(t.voices =~= s.voices);
}

/// Deleting a voice right after it was added gives the voices back, and the default too unless
/// the new voice was made the default.
pub proof fn deleting_undoes_adding(
    s: StoreView,
    input: voice::NewVoiceView,
    t: StoreView,
)
    requires
        !s.voices.dom().contains(input.entry.id),
        after_delete(after_add(s, input), input.entry.id, t),
    ensures
        has_custom(after_add(s, input), input.entry.id),
        t.voices == s.voices,
        !input.set_default && default_exists(s) ==> t == s,
{
    assert(t.voices =~= s.voices);
}

/// Adding a voice changes no other one and keeps the store valid. A default that exists goes on
/// existing, and a voice that is added as the default is the default.
pub proof fn adding_keeps_the_rest(s: StoreView, input: voice::NewVoiceView)
    requires
        valid(s.voices),
        !s.voices.dom().contains(input.entry.id),
    ensures
        valid(after_add(s, input).voices),
        base_part(after_add(s, input).voices) == base_part(s.voices),
        forall|k: Seq<char>| #[trigger]
            s.voices.dom().contains(k) ==> after_add(s, input).voices.dom().contains(k) && after_add(
                s,
                input,
            ).voices[k] == s.voices[k],
        default_exists(s) || input.set_default ==> default_exists(after_add(s, input)),
        input.set_default ==> after_add(s, input).default_voice == input.entry.id,
{
    assert(base_part(after_add(s, input).voices) =~= base_part(s.voices));
}

/// Deleting a custom voice changes no other one, so that the voices of the installation stay.
/// Unless no voice is left, the deleted one is not the default afterwards, and a default goes on
/// existing.
pub proof fn deleting_keeps_the_rest(s: StoreView, id: Seq<char>, t: StoreView)
    requires
        valid(s.voices),
        has_custom(s, id),
        after_delete(s, id, t),
    ensures
        valid(t.voices),
        base_part(t.voices) == base_part(s.voices),
        !t.voices.dom().contains(id),
        forall|k: Seq<char>| #[trigger]
            s.voices.dom().contains(k) && k != id ==> t.voices.dom().contains(k) && t.voices[k]
                == s.voices[k],
        t.voices.dom() != Set::<Seq<char>>::empty() ==> t.default_voice != id && (default_exists(s)
            ==> default_exists(t)),
{
    assert(base_part(t.voices) =~= base_part(s.voices));
}

impl VoiceStore {
    /// The voices of a well-formed store are valid.
    pub proof fn wf_is_valid(self)
        requires
            self.wf(),
        ensures
            valid(self@.voices),
    {
        assert forall|k: Seq<char>| #[trigger] self@.voices.dom().contains(k) implies self@.voices[k].id
            == k && (self@.voices[k].source == VoiceSource::Custom ==> self@.voices[k].transcript
            is Some) by {
            let i = lemma_at(self.voices@, k);
            lemma_entry(self.voices@, i);
        }
    }
}

/// Each voice of an installation stands in the store under its identifier with its own description,
/// embedding and transcript; a later one with the same identifier takes the place of an earlier one,
/// and no other changes.
pub proof fn base_voices_are_taken_as_they_are(base: Seq<BaseVoice>, b: BaseVoice)
    ensures
        start_map(base.push(b)) == base_map(base).insert(
            b.id@,
            (voice::VoiceView {
                id: b.id@,
                description: b.description@,
                source: VoiceSource::Base,
                embedding: b.embedding@,
                transcript: text::opt_text(b.transcript),
            }),
        ),
        base.len() > 0 ==> start_map(base) == base_map(base),
{
    assert(base.push(b).drop_last() =~= base);
    assert(base.push(b).last() == b);
}

/// An installation without voices has one, which is silent: its embedding is all zeros.
pub proof fn an_installation_has_a_voice(base: Seq<BaseVoice>)
    requires
        base.len() == 0,
    ensures
        start_map(base).dom() == set!["default_voice"@],
        start_map(base)["default_voice"@].id == "default_voice"@,
        start_map(base)["default_voice"@].description == "Fallback default voice"@,
        start_map(base)["default_voice"@].source == VoiceSource::Base,
        start_map(base)["default_voice"@].transcript == Some("xin chao"@),
        start_map(base)["default_voice"@].embedding.len() == 128,
        forall|i: int|
            0 <= i < 128 ==> #[trigger] start_map(base)["default_voice"@].embedding[i] == 0,
{
    assert(start_map(base).dom() =~= set!["default_voice"@]);
}

/// The voices of a file are taken one after the other: one whose identifier is free is added as a
/// custom voice with its own description, embedding and transcript, and one whose identifier is
/// taken is left out.
pub proof fn custom_voices_are_taken_in_order(
    m: Map<Seq<char>, voice::VoiceView>,
    a: Seq<voice::EntryView>,
    e: voice::EntryView,
    b: Seq<voice::EntryView>,
)
    ensures
        with_customs(m, a + b) == with_customs(with_customs(m, a), b),
        m.dom().contains(e.id) ==> with_customs(m, seq![e]) == m,
        !m.dom().contains(e.id) ==> with_customs(m, seq![e]) == m.insert(
            e.id,
            (voice::VoiceView {
                id: e.id,
                description: e.description,
                source: VoiceSource::Custom,
                embedding: e.embedding,
                transcript: Some(e.transcript),
            }),
        ),
    decreases b.len(),
{
    reveal_with_fuel(with_customs, 2);
    assert(seq![e].drop_last() =~= seq![]);
    if b.len() == 0 {
        assert(a + b =~= a);
    } else {
        assert((a + b).drop_last() =~= a + b.drop_last());
        assert((a + b).last() == b.last());
        custom_voices_are_taken_in_order(m, a, e, b.drop_last());
    }
}

/// The default of a loaded store is the one that the file names, if there is such a voice, and
/// otherwise the first voice of the installation, before which no other one comes.
pub proof fn which_voice_is_the_default(base: Seq<BaseVoice>, f: voice::FileView, s: StoreView)
    requires
        loaded(base, f, s),
    ensures
        s.voices == with_customs(start_map(base), f.voices),
        f.default_voice matches Some(d) && s.voices.dom().contains(d) ==> s.default_voice
            == f.default_voice->0,
        f.default_voice is None || !s.voices.dom().contains(f.default_voice->0) ==> start_map(
            base,
        ).dom().contains(s.default_voice) && forall|k: Seq<char>| #[trigger]
            start_map(base).dom().contains(k) ==> k == s.default_voice || order::less(
                s.default_voice,
                k,
            ),
{
}

/// A voice that is added has what was given for it, and becomes the default exactly if that was
/// asked for; otherwise the default stays.
pub proof fn an_added_voice_has_what_was_given(s: StoreView, input: voice::NewVoiceView)
    ensures
        after_add(s, input).voices[input.entry.id] == (voice::VoiceView {
            id: input.entry.id,
            description: input.entry.description,
            source: VoiceSource::Custom,
            embedding: input.entry.embedding,
            transcript: Some(input.entry.transcript),
        }),
        after_add(s, input).voices.dom() == s.voices.dom().insert(input.entry.id),
        input.set_default ==> after_add(s, input).default_voice == input.entry.id,
        !input.set_default ==> after_add(s, input).default_voice == s.default_voice,
{
}

/// Deleting a voice that is not the default keeps the default; deleting the default makes the first
/// of the voices that are left the default, before which no other one comes.
pub proof fn which_voice_follows_the_default(s: StoreView, id: Seq<char>, t: StoreView)
    requires
        after_delete(s, id, t),
    ensures
        t.voices == s.voices.remove(id),
        s.default_voice != id ==> t.default_voice == s.default_voice,
        s.default_voice == id && t.voices.dom() != Set::<Seq<char>>::empty()
            ==> t.voices.dom().contains(t.default_voice) && forall|k: Seq<char>| #[trigger]
            t.voices.dom().contains(k) ==> k == t.default_voice || order::less(t.default_voice, k),
        s.default_voice == id && t.voices.dom() == Set::<Seq<char>>::empty() ==> t.default_voice
            == "default_voice"@,
{
}

/// Only custom voices can be deleted.
pub proof fn only_custom_voices_can_be_deleted(s: StoreView, id: Seq<char>)
    ensures
        has_custom(s, id) <==> s.voices.dom().contains(id) && s.voices[id].source
            == VoiceSource::Custom,
{
}

/// The file for a store names its default and holds every custom voice with all that belongs to it,
/// once each and in the order of their identifiers, and no voice of the installation.
pub proof fn a_file_holds_the_custom_voices(s: StoreView, f: voice::FileView, k: Seq<char>)
    requires
        written(s, f),
        s.voices.dom().contains(k),
    ensures
        f.default_voice == Some(s.default_voice),
        s.voices[k].source == VoiceSource::Custom ==> exists|i: int|
            0 <= i < f.voices.len() && (#[trigger] f.voices[i]).id == k && s.voices[k].description
                == f.voices[i].description && s.voices[k].embedding == f.voices[i].embedding
                && s.voices[k].transcript == Some(f.voices[i].transcript),
        s.voices[k].source == VoiceSource::Base ==> forall|i: int|
            0 <= i < f.voices.len() ==> (#[trigger] f.voices[i]).id != k,
        forall|i: int, j: int|
            0 <= i < j < f.voices.len() ==> order::less(
                (#[trigger] f.voices[i]).id,
                (#[trigger] f.voices[j]).id,
            ),
{
    if s.voices[k].source == VoiceSource::Custom {
        let i = choose|i: int| 0 <= i < f.voices.len() && #[trigger] f.voices[i].id == k;
        assert(s.voices[f.voices[i].id] == voice::voice_of(f.voices[i]));
    } else {
        assert forall|i: int| 0 <= i < f.voices.len() implies (#[trigger] f.voices[i]).id != k by {
            assert(s.voices[f.voices[i].id] == voice::voice_of(f.voices[i]));
        }
    }
}

} // verus!
