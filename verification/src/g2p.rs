//! From text to phonemes.
use crate::dict;
use crate::dict::{DictError, PhonemeDict};
use crate::patterns;
use crate::text;
use crate::unicode;
use vstd::prelude::*;
use vstd::string::*;

verus! {

/// Turns text into phonemes with a dictionary.
#[derive(Debug)]
pub struct SeaG2pCore {
    dict: PhonemeDict,
}

/// A pronunciation without its language marks.
pub open spec fn unmarked(s: Seq<char>) -> Seq<char> {
    text::replaced(s, "<en>"@, ""@)
}

/// What is said for a word with this form in lower case: the pronunciation of that form in the
/// merged table, else that in the common table (the Vietnamese one unless it is blank), else the
/// word as it is written.
pub open spec fn pronounced(d: Seq<u8>, word: Seq<char>, lower: Seq<char>) -> Seq<char> {
    match dict::merged(d, lower) {
        Some(p) => unmarked(p),
        None => match dict::common(d, lower) {
            Some(pair) => if text::trimmed(pair.0).len() > 0 {
                unmarked(pair.0)
            } else {
                unmarked(pair.1)
            },
            None => word,
        },
    }
}

/// What is said for a part of a text: a tagged passage and a sign stand for themselves, a word is
/// looked up in lower case.
pub open spec fn spoken(d: Seq<u8>, m: Seq<Option<Seq<char>>>) -> Option<Seq<char>> {
    match patterns::group(m, 0) {
        Some(tagged) => Some(tagged),
        None => match patterns::group(m, 1) {
            Some(word) => Some(pronounced(d, word, unicode::lowercase(word))),
            None => patterns::group(m, 2),
        },
    }
}

/// What is said for the parts of a text, in order.
pub open spec fn spoken_all(d: Seq<u8>, m: Seq<Seq<Option<Seq<char>>>>) -> Seq<Seq<char>>
    decreases m.len(),
{
    if m.len() == 0 {
        seq![]
    } else {
        let head = spoken_all(d, m.drop_last());
        match spoken(d, m.last()) {
            Some(s) => head.push(s),
            None => head,
        }
    }
}

/// The phonemes of a text, whose parts are those that the token pattern finds.
pub open spec fn phonemes(d: Seq<u8>, s: Seq<char>) -> Seq<char> {
    match patterns::regex_captures(patterns::TOKEN_PATTERN@, s) {
        Some(m) => text::joined(spoken_all(d, m), " "@),
        None => seq![],
    }
}

/// The words of a text with one space between each two.
pub open spec fn compact(s: Seq<char>) -> Seq<char> {
    text::joined(text::words(s), " "@)
}

fn group_at(m: &Vec<Option<String>>, k: usize) -> (r: Option<&String>)
    ensures
        (match r {
            Some(s) => Some(s@),
            None => None,
        }) == patterns::group(m@.map_values(|g: Option<String>| text::opt_text(g)), k as int),
{
    if k < m.len() {
        m[k].as_ref()
    } else {
        None
    }
}

fn without_marks(s: &str) -> (r: String)
    ensures
        r@ == unmarked(s@),
{
    proof {
        reveal_strlit("<en>");
    }
    text::replace(s, "<en>", "")
}

impl SeaG2pCore {
    /// The bytes of the dictionary file.
    pub closed spec fn bytes(self) -> Seq<u8> {
        self.dict.bytes()
    }

    /// The dictionary is well formed.
    pub closed spec fn wf(self) -> bool {
        self.dict.wf()
    }

    /// Takes the bytes of a dictionary file.
    pub fn open(data: Vec<u8>) -> (r: Result<SeaG2pCore, DictError>)
        ensures
            match r {
                Ok(core) => dict::valid_file(data@) && core.wf() && core.bytes() == data@,
                Err(e) => !dict::valid_file(data@) && e == DictError::InvalidHeader,
            },
    {
        match PhonemeDict::open(data) {
            Ok(dict) => Ok(SeaG2pCore { dict }),
            Err(e) => Err(e),
        }
    }

    /// What is said for a word with this form in lower case.
    pub fn pronounce(&self, word: &str, lower: &str) -> (r: String)
        requires
            self.wf(),
        ensures
            r@ == pronounced(self.bytes(), word@, lower@),
            (dict::merged(self.bytes(), lower@), dict::common(self.bytes(), lower@)) matches (
                None,
                Some((vi, en)),
            ) ==> r@ == if text::blank(vi) {
                text::replaced(en, "<en>"@, ""@)
            } else {
                text::replaced(vi, "<en>"@, ""@)
            },
    {
        proof {
            match dict::common(self.bytes(), lower@) {
                Some((vi, en)) => text::only_blank_texts_are_trimmed_away(vi),
                None => {},
            }
        }
        match self.dict.lookup_merged(lower) {
            Some(p) => without_marks(p),
            None => {
                match self.dict.lookup_common(lower) {
                    Some(pair) => {
                        let vi = text::trim(pair.0);
                        if !vi.as_str().is_empty() {
                            without_marks(pair.0)
                        } else {
                            without_marks(pair.1)
                        }
                    },
                    None => text::owned(word),
                }
            },
        }
    }

    /// The phonemes for the parts of a text: of each match the groups of the token pattern.
    pub fn phonemize_tokens(&self, matches: &Vec<Vec<Option<String>>>) -> (r: String)
        requires
            self.wf(),
        ensures
            r@ == text::joined(spoken_all(self.bytes(), patterns::groups(matches@)), " "@),
    {
        let ghost d = self.bytes();
        let ghost all = patterns::groups(matches@);
        let mut out: Vec<String> = Vec::new();
        let mut i: usize = 0;
        assert(all.take(0) =~= seq![]);
        assert(text::texts(out@) =~= seq![]);
        while i < matches.len()
            invariant
                i <= matches@.len(),
                self.wf(),
                d == self.bytes(),
                all == patterns::groups(matches@),
                text::texts(out@) == spoken_all(d, all.take(i as int)),
            decreases matches@.len() - i,
        {
            let m = &matches[i];
            let ghost before = text::texts(out@);
            assert(all.take(i + 1).drop_last() =~= all.take(i as int));
            assert(all.take(i + 1).last() == m@.map_values(|g: Option<String>| text::opt_text(g)));
            let said: Option<String> = match group_at(m, 0) {
                Some(tagged) => Some(tagged.clone()),
                None => {
                    match group_at(m, 1) {
                        Some(word) => {
                            let lower = word.as_str().to_lowercase();
                            Some(self.pronounce(word.as_str(), lower.as_str()))
                        },
                        None => {
                            match group_at(m, 2) {
                                Some(sign) => Some(sign.clone()),
                                None => None,
                            }
                        },
                    }
                },
            };
            match said {
                Some(s) => {
                    out.push(s);
                    assert(text::texts(out@) =~= before.push(s@));
                },
                None => {},
            }
            i = i + 1;
        }
        assert(all.take(matches@.len() as int) =~= all);
        text::join(&out, " ")
    }

    /// The phonemes of a text.
    pub fn phonemize(&self, s: &str) -> (r: String)
        requires
            self.wf(),
        ensures
            r@ == phonemes(self.bytes(), s@),
            patterns::regex_captures(patterns::TOKEN_PATTERN@, s@) is Some,
    {
        match patterns::captures(patterns::TOKEN_PATTERN, s) {
            Some(m) => self.phonemize_tokens(&m),
            None => String::new(),
        }
    }
}

/// What a dictionary, if there is one, makes of a text whose white space is compacted and whose
/// letters are lower case.
pub open spec fn spoken_input(g2p: Option<&SeaG2pCore>, input: Seq<char>) -> Seq<char> {
    match g2p {
        Some(core) => phonemes(core.bytes(), unicode::lowercase(compact(input))),
        None => unicode::lowercase(compact(input)),
    }
}

/// What a dictionary, if there is one, makes of an input.
pub fn normalize_and_phonemize(g2p: Option<&SeaG2pCore>, input: &str) -> (r: String)
    requires
        g2p matches Some(core) ==> core.wf(),
    ensures
        r@ == spoken_input(g2p, input@),
{
    let parts = text::split_whitespace(input);
    let spaced = text::join(&parts, " ");
    let trimmed = text::trim(spaced.as_str());
    proof {
        compact_has_no_outer_space(input@);
    }
    let lower = trimmed.as_str().to_lowercase();
    match g2p {
        Some(core) => core.phonemize(lower.as_str()),
        None => lower,
    }
}

/// The rows of characters are words: not empty, and without white space.
pub open spec fn proper_words(ws: Seq<Seq<char>>) -> bool {
    forall|i: int|
        0 <= i < ws.len() ==> (#[trigger] ws[i]).len() > 0 && forall|k: int|
            0 <= k < ws[i].len() ==> !text::white(#[trigger] ws[i][k])
}

proof fn lemma_word_len(s: Seq<char>)
    ensures
        text::word_len(s) <= s.len(),
        forall|k: int| 0 <= k < text::word_len(s) ==> !text::white(#[trigger] s[k]),
        text::word_len(s) < s.len() ==> text::white(s[text::word_len(s) as int]),
    decreases s.len(),
{
    if s.len() > 0 && !text::white(s[0]) {
        let t = s.skip(1);
        lemma_word_len(t);
        assert forall|k: int| 0 <= k < text::word_len(s) implies !text::white(#[trigger] s[k]) by {
            if k > 0 {
                assert(t[k - 1] == s[k]);
            }
        }
    }
}

/// The words of a text are not empty and hold no white space.
pub proof fn words_are_proper(s: Seq<char>)
    ensures
        proper_words(text::words(s)),
    decreases s.len(),
{
    if s.len() > 0 {
        if text::white(s[0]) {
            words_are_proper(s.skip(1));
        } else {
            lemma_word_len(s);
            let n = text::word_len(s) as int;
            words_are_proper(s.skip(n));
            let rest = text::words(s.skip(n));
            let ws = seq![s.take(n)] + rest;
            assert forall|i: int| 0 <= i < ws.len() implies (#[trigger] ws[i]).len() > 0 && forall|
                k: int,
            |
                0 <= k < ws[i].len() ==> !text::white(#[trigger] ws[i][k]) by {
                if i > 0 {
                    assert(ws[i] == rest[i - 1]);
                }
            }
        }
    }
}

proof fn lemma_joined_ends(ws: Seq<Seq<char>>)
    requires
        proper_words(ws),
        ws.len() > 0,
    ensures
        text::joined(ws, " "@).len() > 0,
        text::joined(ws, " "@)[0] == ws[0][0],
        text::joined(ws, " "@).last() == ws.last().last(),
    decreases ws.len(),
{
    reveal_strlit(" ");
    assert(ws.last().len() > 0);
    if ws.len() > 1 {
        let head = ws.drop_last();
        assert(proper_words(head)) by {
            assert forall|i: int| 0 <= i < head.len() implies (#[trigger] head[i]).len() > 0
                && forall|k: int|
                0 <= k < head[i].len() ==> !text::white(#[trigger] head[i][k]) by {
                assert(head[i] == ws[i]);
            }
        }
        lemma_joined_ends(head);
    }
}

/// A compacted text neither starts nor ends with white space.
pub proof fn compact_has_no_outer_space(s: Seq<char>)
    ensures
        text::trimmed(compact(s)) == compact(s),
{
    words_are_proper(s);
    let ws = text::words(s);
    if ws.len() > 0 {
        lemma_joined_ends(ws);
        assert(!text::white(ws[0][0]));
        let l = ws[ws.len() - 1];
        assert(!text::white(l[l.len() - 1]));
    }
}

proof fn lemma_joined_front(ws: Seq<Seq<char>>)
    requires
        ws.len() >= 2,
    ensures
        text::joined(ws, " "@) == ws[0] + " "@ + text::joined(ws.skip(1), " "@),
    decreases ws.len(),
{
    let head = ws.drop_last();
    if ws.len() == 2 {
        assert(text::joined(head, " "@) == ws[0]);
        assert(ws.skip(1).len() == 1 && ws.skip(1)[0] == ws.last());
    } else {
        lemma_joined_front(head);
        assert(head.skip(1) =~= ws.skip(1).drop_last());
        assert(ws.skip(1).last() == ws.last());
        assert(text::joined(ws, " "@) =~= ws[0] + " "@ + text::joined(ws.skip(1), " "@));
    }
}

proof fn lemma_word_len_of(w: Seq<char>, rest: Seq<char>)
    requires
        forall|k: int| 0 <= k < w.len() ==> !text::white(#[trigger] w[k]),
        rest.len() == 0 || text::white(rest[0]),
    ensures
        text::word_len(w + rest) == w.len(),
{
    text::lemma_word_len_of(w, rest);
}

proof fn lemma_words_joined(ws: Seq<Seq<char>>)
    requires
        proper_words(ws),
    ensures
        text::words(text::joined(ws, " "@)) == ws,
    decreases ws.len(),
{
    reveal_strlit(" ");
    let s = text::joined(ws, " "@);
    if ws.len() == 0 {
        assert(text::words(s) =~= ws);
    } else {
        let w = ws[0];
        let tail = ws.skip(1);
        assert(proper_words(tail)) by {
            assert forall|i: int| 0 <= i < tail.len() implies (#[trigger] tail[i]).len() > 0
                && forall|k: int|
                0 <= k < tail[i].len() ==> !text::white(#[trigger] tail[i][k]) by {
                assert(tail[i] == ws[i + 1]);
            }
        }
        lemma_words_joined(tail);
        let rest = if ws.len() == 1 {
            Seq::<char>::empty()
        } else {
            " "@ + text::joined(tail, " "@)
        };
        if ws.len() > 1 {
            lemma_joined_front(ws);
            assert(rest.skip(1) =~= text::joined(tail, " "@));
        }
        assert(s =~= w + rest);
        lemma_word_len_of(w, rest);
        assert(s[0] == w[0]);
        assert(s.take(w.len() as int) =~= w);
        assert(s.skip(w.len() as int) =~= rest);
        assert(text::words(rest) =~= tail);
        assert(text::words(s) =~= ws);
    }
}

/// Compacting a text keeps its words, and compacting it again changes nothing.
pub proof fn compacting_keeps_the_words(s: Seq<char>)
    ensures
        text::words(compact(s)) == text::words(s),
        compact(compact(s)) == compact(s),
{
    words_are_proper(s);
    lemma_words_joined(text::words(s));
}

/// A word that the merged table does not hold and the common table does is said in Vietnamese if
/// the Vietnamese pronunciation holds anything but white space, whatever the English one is, and
/// in English only otherwise; either without its marks. How the word is written does not matter.
pub proof fn the_vietnamese_pronunciation_is_preferred(
    d: Seq<u8>,
    word: Seq<char>,
    lower: Seq<char>,
    vi: Seq<char>,
    en: Seq<char>,
)
    requires
        dict::merged(d, lower) is None,
        dict::common(d, lower) == Some((vi, en)),
    ensures
        (exists|i: int| 0 <= i < vi.len() && !text::white(#[trigger] vi[i])) ==> pronounced(
            d,
            word,
            lower,
        ) == text::replaced(vi, "<en>"@, ""@),
        (forall|i: int| 0 <= i < vi.len() ==> text::white(#[trigger] vi[i])) ==> pronounced(
            d,
            word,
            lower,
        ) == text::replaced(en, "<en>"@, ""@),
{
    text::only_blank_texts_are_trimmed_away(vi);
}

/// The merged table comes before the common one, whatever that holds, and a word that neither
/// holds is said as it is written.
pub proof fn the_merged_table_comes_first(d: Seq<u8>, word: Seq<char>, lower: Seq<char>)
    ensures
        dict::merged(d, lower) matches Some(p) ==> pronounced(d, word, lower) == text::replaced(
            p,
            "<en>"@,
            ""@,
        ),
        dict::merged(d, lower) is None && dict::common(d, lower) is None ==> pronounced(
            d,
            word,
            lower,
        ) == word,
{
}

/// Taking the marks out of a pronunciation takes out each of them and keeps all the rest: what
/// stands before the first mark is kept, and so on behind it.
pub proof fn marks_are_taken_out(p: Seq<char>, q: Seq<char>)
    requires
        forall|i: int| !text::occurs_at(p, "<en>"@, i),
        forall|i: int| 0 <= i < p.len() ==> !text::occurs_at(p + "<en>"@ + q, "<en>"@, i),
    ensures
        unmarked(p) == p,
        unmarked(p + "<en>"@ + q) == p + unmarked(q),
{
    reveal_strlit("<en>");
    reveal_strlit("");
    text::without_the_pattern_nothing_is_replaced(p, "<en>"@, ""@);
    text::the_first_occurrence_is_replaced(p, "<en>"@, q, ""@);
    assert(p + ""@ + unmarked(q) =~= p + unmarked(q));
}

/// The parts of a text are said one by one: what is said for two texts, one behind the other, is
/// what is said for the first and then what is said for the second.
pub proof fn parts_are_said_one_by_one(
    d: Seq<u8>,
    a: Seq<Seq<Option<Seq<char>>>>,
    b: Seq<Seq<Option<Seq<char>>>>,
)
    ensures
        spoken_all(d, a + b) == spoken_all(d, a) + spoken_all(d, b),
    decreases b.len(),
{
    if b.len() == 0 {
        assert(a + b =~= a);
        assert(spoken_all(d, a) =~= spoken_all(d, a) + spoken_all(d, b));
    } else {
        assert((a + b).drop_last() =~= a + b.drop_last());
        assert((a + b).last() == b.last());
        parts_are_said_one_by_one(d, a, b.drop_last());
        assert(spoken_all(d, a + b) =~= spoken_all(d, a) + spoken_all(d, b));
    }
}

/// A tagged passage and a sign are said as they are written, and a word is looked up by its form in
/// lower case; each is one part of what is said.
pub proof fn what_is_said_for_a_part(d: Seq<u8>, s: Seq<char>)
    ensures
        spoken_all(d, seq![seq![Some(s), None, None]]) == seq![s],
        spoken_all(d, seq![seq![None, None, Some(s)]]) == seq![s],
        spoken_all(d, seq![seq![None, Some(s), None]]) == seq![
            pronounced(d, s, unicode::lowercase(s)),
        ],
{
    let tagged: Seq<Option<Seq<char>>> = seq![Some(s), None, None];
    let sign: Seq<Option<Seq<char>>> = seq![None, None, Some(s)];
    let word: Seq<Option<Seq<char>>> = seq![None, Some(s), None];
    reveal_with_fuel(spoken_all, 2);
    assert(seq![tagged].drop_last() =~= seq![]);
    assert(seq![sign].drop_last() =~= seq![]);
    assert(seq![word].drop_last() =~= seq![]);
    assert(spoken_all(d, seq![tagged]) =~= seq![s]);
    assert(spoken_all(d, seq![sign]) =~= seq![s]);
    assert(spoken_all(d, seq![word]) =~= seq![pronounced(d, s, unicode::lowercase(s))]);
}

/// Only the words of an input count, not the white space between and around them: they are said in
/// lower case with one space between each two, so that two inputs with the same words are said
/// alike.
pub proof fn only_the_words_of_an_input_count(
    g2p: Option<&SeaG2pCore>,
    a: Seq<char>,
    b: Seq<char>,
)
    requires
        text::words(a) == text::words(b),
    ensures
        spoken_input(g2p, a) == spoken_input(g2p, b),
        spoken_input(g2p, a) == spoken_input(g2p, text::joined(text::words(a), " "@)),
        g2p is None ==> spoken_input(g2p, a) == unicode::lowercase(
            text::joined(text::words(a), " "@),
        ),
        g2p matches Some(core) ==> spoken_input(g2p, a) == phonemes(
            core.bytes(),
            unicode::lowercase(text::joined(text::words(a), " "@)),
        ),
{
    compacting_keeps_the_words(a);
}

/// What is said for a text are the sounds of its parts with one space between each two.
pub proof fn the_parts_of_a_text_are_said_with_spaces(
    d: Seq<u8>,
    s: Seq<char>,
    a: Seq<Seq<Option<Seq<char>>>>,
    b: Seq<Seq<Option<Seq<char>>>>,
)
    requires
        patterns::regex_captures(patterns::TOKEN_PATTERN@, s) == Some(a + b),
    ensures
        spoken_all(d, a).len() > 0 && spoken_all(d, b).len() > 0 ==> phonemes(d, s) == text::joined(
            spoken_all(d, a),
            " "@,
        ) + " "@ + text::joined(spoken_all(d, b), " "@),
        spoken_all(d, b).len() == 0 ==> phonemes(d, s) == text::joined(spoken_all(d, a), " "@),
{
    parts_are_said_one_by_one(d, a, b);
    text::joining_goes_part_by_part(spoken_all(d, a), spoken_all(d, b), " "@);
    if spoken_all(d, b).len() == 0 {
        assert(spoken_all(d, a) + spoken_all(d, b) =~= spoken_all(d, a));
    }
}

} // verus!
