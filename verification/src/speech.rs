//! From a text to speech tokens: the prompt of the model, the run of the model, and the tokens in
//! what it writes.
use crate::decimal;
use crate::error;
use crate::error::{ApiError, ErrorKind};
use crate::patterns;
use crate::text;
use vstd::prelude::*;
use vstd::string::*;
use vstd::utf8::*;

verus! {

/// The most tokens that one run of the model yields.
pub const MAX_NEW_TOKENS: usize = 2048;

/// A run ends when its text is longer than this, in bytes.
pub const MAX_GENERATED_BYTES: usize = 131072;

/// A run ends when its text holds this mark.
pub const END_MARK: &'static str = "<|SPEECH_GENERATION_END|>";

/// The prompt for a row of phonemes.
pub fn format_turbo_prompt(phonemes: &str) -> (r: String)
    ensures
        r@ == "<|speaker_16|><|TEXT_PROMPT_START|>"@ + phonemes@
            + "<|TEXT_PROMPT_END|><|SPEECH_GENERATION_START|>"@,
{
    text::concat3(
        "<|speaker_16|><|TEXT_PROMPT_START|>",
        phonemes,
        "<|TEXT_PROMPT_END|><|SPEECH_GENERATION_START|>",
    )
}

/// The numbers that fit in 32 bits among rows of digits.
pub open spec fn ids_of(digits: Seq<Seq<char>>) -> Seq<u32>
    decreases digits.len(),
{
    if digits.len() == 0 {
        seq![]
    } else {
        let head = ids_of(digits.drop_last());
        let v = decimal::value_of(digits.last());
        if v <= u32::MAX {
            head.push(v as u32)
        } else {
            head
        }
    }
}

/// The numbers of the speech tokens in a text, in order; a number that does not fit in 32 bits is
/// left out.
pub open spec fn speech_ids(s: Seq<char>) -> Seq<u32> {
    ids_of(patterns::speech_digits(s))
}

/// The numbers that the first groups of the matches denote; a group that denotes none is left out.
pub open spec fn group_ids(m: Seq<Seq<Option<Seq<char>>>>) -> Seq<u32>
    decreases m.len(),
{
    if m.len() == 0 {
        seq![]
    } else {
        let head = group_ids(m.drop_last());
        match patterns::group(m.last(), 0) {
            Some(d) => match decimal::parsed(d, u32::MAX as nat) {
                Some(v) => head.push(v as u32),
                None => head,
            },
            None => head,
        }
    }
}

/// The numbers that the first groups of the matches denote.
pub fn parse_group_ids(matches: &Vec<Vec<Option<String>>>) -> (r: Vec<u32>)
    ensures
        r@ == group_ids(patterns::groups(matches@)),
{
    let mut r: Vec<u32> = Vec::new();
    let ghost all = patterns::groups(matches@);
    let mut i: usize = 0;
    assert(all.take(0) =~= seq![]);
    while i < matches.len()
        invariant
            i <= matches@.len(),
            all == patterns::groups(matches@),
            r@ == group_ids(all.take(i as int)),
        decreases matches@.len() - i,
    {
        let m = &matches[i];
        assert(all.take(i + 1).drop_last() =~= all.take(i as int));
        assert(all.take(i + 1).last() == m@.map_values(|g: Option<String>| text::opt_text(g)));
        if m.len() > 0 {
            match &m[0] {
                Some(d) => {
                    match decimal::parse(d.as_str(), 0xffff_ffff) {
                        Some(v) => r.push(v as u32),
                        None => {},
                    }
                },
                None => {},
            }
        }
        i = i + 1;
    }
    assert(all.take(matches@.len() as int) =~= all);
    r
}

proof fn lemma_group_ids(m: Seq<Seq<Option<Seq<char>>>>)
    requires
        forall|i: int| 0 <= i < m.len() ==> patterns::number_group(#[trigger] m[i]),
    ensures
        group_ids(m) == ids_of(patterns::decimal_captures(m)),
    decreases m.len(),
{
    if m.len() > 0 {
        let head = m.drop_last();
        assert forall|i: int| 0 <= i < head.len() implies patterns::number_group(
            #[trigger] head[i],
        ) by {
            assert(head[i] == m[i]);
        }
        lemma_group_ids(head);
        assert(patterns::number_group(m[m.len() - 1]));
        let d = patterns::group(m.last(), 0)->0;
        assert(decimal::unsigned_part(d) == d);
        let before = patterns::decimal_captures(head);
        assert(before.push(d).drop_last() =~= before);
    }
}

/// The numbers of the speech tokens in what the model wrote.
pub fn extract_speech_ids(generated: &str) -> (r: Vec<u32>)
    ensures
        r@ == speech_ids(generated@),
{
    match patterns::captures(patterns::SPEECH_TOKEN_PATTERN, generated) {
        Some(m) => {
            proof {
                lemma_group_ids(patterns::groups(m@));
            }
            parse_group_ids(&m)
        },
        None => Vec::new(),
    }
}

/// The tokens of a run, which must be at least one.
pub fn speech_tokens(generated: &str) -> (r: Result<Vec<u32>, ApiError>)
    ensures
        match r {
            Ok(t) => t@ == speech_ids(generated@) && t@.len() > 0,
            Err(e) => speech_ids(generated@).len() == 0 && e.says(
                ErrorKind::Internal,
                "model generated no speech tokens"@,
            ),
        },
{
    let t = extract_speech_ids(generated);
    if t.len() == 0 {
        Err(error::internal("model generated no speech tokens"))
    } else {
        Ok(t)
    }
}

/// The tokens as the numbers that the decoder takes.
pub fn token_ids(tokens: &Vec<u32>) -> (r: Vec<i64>)
    ensures
        r@ == tokens@.map_values(|t: u32| t as i64),
{
    let mut r: Vec<i64> = Vec::new();
    let mut i: usize = 0;
    while i < tokens.len()
        invariant
            i <= tokens@.len(),
            r@ == tokens@.take(i as int).map_values(|t: u32| t as i64),
        decreases tokens@.len() - i,
    {
        r.push(tokens[i] as i64);
        assert(r@ =~= tokens@.take(i + 1).map_values(|t: u32| t as i64));
        i = i + 1;
    }
    assert(tokens@.take(tokens@.len() as int) =~= tokens@);
    r
}

/// A sound of no samples becomes one silent sample.
pub fn at_least_one_sample(pcm: Vec<i16>) -> (r: Vec<i16>)
    ensures
        r@ == if pcm@.len() == 0 {
            seq![0i16]
        } else {
            pcm@
        },
{
    let mut r = pcm;
    if r.len() == 0 {
        r.push(0);
        assert(r@ =~= seq![0i16]);
    }
    r
}

/// The text of a speech token.
pub open spec fn token_text(id: nat) -> Seq<char> {
    patterns::token_open() + decimal::digits_of(id) + seq!['|', '>']
}

/// The text of a row of speech tokens.
pub open spec fn tokens_text(ids: Seq<u32>) -> Seq<char>
    decreases ids.len(),
{
    if ids.len() == 0 {
        seq![]
    } else {
        token_text(ids[0] as nat) + tokens_text(ids.skip(1))
    }
}

proof fn lemma_digit_run(d: Seq<char>, rest: Seq<char>)
    requires
        decimal::all_digits(d),
        rest.len() > 0,
        !decimal::digit(rest[0]),
    ensures
        patterns::digit_run(d + rest) == d.len(),
    decreases d.len(),
{
    if d.len() == 0 {
        assert(d + rest =~= rest);
    } else {
        assert(decimal::digit(d[0]));
        assert((d + rest)[0] == d[0]);
        assert((d + rest).skip(1) =~= d.skip(1) + rest);
        assert forall|i: int| 0 <= i < d.skip(1).len() implies decimal::digit(
            #[trigger] d.skip(1)[i],
        ) by {
            assert(d.skip(1)[i] == d[i + 1]);
        }
        lemma_digit_run(d.skip(1), rest);
    }
}

/// Text without `<` before a text adds no token to it.
proof fn lemma_no_token(p: Seq<char>, rest: Seq<char>)
    requires
        forall|i: int| 0 <= i < p.len() ==> #[trigger] p[i] != '<',
    ensures
        patterns::speech_digits(p + rest) == patterns::speech_digits(rest),
    decreases p.len(),
{
    if p.len() == 0 {
        assert(p + rest =~= rest);
    } else {
        let s = p + rest;
        assert(s[0] == p[0]);
        if text::occurs_at(s, patterns::token_open(), 0) {
            assert(s.subrange(0, 9)[0] == '<');
        }
        assert(s.skip(1) =~= p.skip(1) + rest);
        assert forall|i: int| 0 <= i < p.skip(1).len() implies #[trigger] p.skip(1)[i] != '<' by {
            assert(p.skip(1)[i] == p[i + 1]);
        }
        lemma_no_token(p.skip(1), rest);
    }
}

proof fn lemma_token(id: nat, rest: Seq<char>)
    ensures
        patterns::speech_digits(token_text(id) + rest) == seq![decimal::digits_of(id)]
            + patterns::speech_digits(rest),
{
    let d = decimal::digits_of(id);
    let s = token_text(id) + rest;
    decimal::lemma_digits(id);
    assert(s.subrange(0, 9) =~= patterns::token_open());
    let tail = seq!['|', '>'] + rest;
    assert(s.skip(9) =~= d + tail);
    lemma_digit_run(d, tail);
    let n = d.len() as int;
    assert(s[9 + n] == '|' && s[10 + n] == '>');
    assert(s.subrange(9, 9 + n) =~= d);
    let p = token_text(id).skip(1);
    assert(s.skip(1) =~= p + rest);
    assert forall|i: int| 0 <= i < p.len() implies #[trigger] p[i] != '<' by {
        if 8 <= i < 8 + n {
            assert(p[i] == d[i - 8]);
            assert(decimal::digit(d[i - 8]));
        }
    }
    lemma_no_token(p, rest);
}

proof fn lemma_ids_of_first(d: Seq<char>, rest: Seq<Seq<char>>)
    requires
        decimal::value_of(d) <= u32::MAX,
    ensures
        ids_of(seq![d] + rest) == seq![decimal::value_of(d) as u32] + ids_of(rest),
    decreases rest.len(),
{
    let all = seq![d] + rest;
    if rest.len() == 0 {
        assert(all.drop_last() =~= seq![]);
        assert(all.last() == d);
        assert(ids_of(all.drop_last()) =~= seq![]);
        assert(ids_of(all) =~= seq![decimal::value_of(d) as u32] + ids_of(rest));
    } else {
        assert(all.drop_last() =~= seq![d] + rest.drop_last());
        assert(all.last() == rest.last());
        lemma_ids_of_first(d, rest.drop_last());
        assert(ids_of(all) =~= seq![decimal::value_of(d) as u32] + ids_of(rest));
    }
}

/// Reading a row of speech tokens gives back the numbers it was written from.
pub proof fn reading_undoes_writing(ids: Seq<u32>)
    ensures
        speech_ids(tokens_text(ids)) == ids,
    decreases ids.len(),
{
    if ids.len() == 0 {
        assert(patterns::speech_digits(tokens_text(ids)) =~= seq![]);
        assert(ids =~= seq![]);
    } else {
        let rest = tokens_text(ids.skip(1));
        reading_undoes_writing(ids.skip(1));
        lemma_token(ids[0] as nat, rest);
        decimal::lemma_digits(ids[0] as nat);
        lemma_ids_of_first(decimal::digits_of(ids[0] as nat), patterns::speech_digits(rest));
        assert(ids =~= seq![ids[0]] + ids.skip(1));
    }
}

/// What to do after the model has sampled a token.
#[derive(Clone, Copy, Debug, PartialEq, Eq, Structural)]
pub enum Step {
    /// The run is over.
    Stop,
    /// Hand the token to the model at this position, then sample the next one.
    Feed(i32),
}

/// A run of the model: the text so far, the number of tokens that were fed back, the position of
/// the next one, and whether a token has ended the run.
pub struct Generation {
    generated: String,
    fed: usize,
    next_pos: i32,
    done: bool,
}

/// The model of a run.
pub struct GenerationView {
    pub generated: Seq<char>,
    pub fed: nat,
    pub next_pos: int,
    pub done: bool,
}

/// The position behind `pos`; the last one is kept.
pub open spec fn next_position(pos: int) -> int {
    if pos < i32::MAX {
        pos + 1
    } else {
        i32::MAX as int
    }
}

/// The text ends a run: it holds the end mark or is longer than allowed.
pub open spec fn text_ends_run(s: Seq<char>) -> bool {
    text::has(s, END_MARK@) || encode_utf8(s).len() > MAX_GENERATED_BYTES
}

/// The run behind a prompt of so many tokens, of which nothing was sampled yet.
pub open spec fn started(prompt_tokens: int) -> GenerationView {
    GenerationView { generated: seq![], fed: 0, next_pos: prompt_tokens, done: false }
}

/// Another token is to be sampled.
pub open spec fn goes_on(g: GenerationView) -> bool {
    !g.done && g.fed < MAX_NEW_TOKENS
}

/// The run after a token was sampled: whether it ends the generation, and the text that it stands
/// for.
pub open spec fn after_token(g: GenerationView, end: bool, piece: Seq<char>) -> GenerationView {
    if end {
        GenerationView { done: true, ..g }
    } else if text_ends_run(g.generated + piece) {
        GenerationView { generated: g.generated + piece, done: true, ..g }
    } else {
        GenerationView {
            generated: g.generated + piece,
            fed: g.fed + 1,
            next_pos: next_position(g.next_pos),
            done: false,
        }
    }
}

/// The run after the model was asked for tokens as long as the run goes on, given the tokens that it
/// would sample.
pub open spec fn run(g: GenerationView, tokens: Seq<(bool, Seq<char>)>) -> GenerationView
    decreases tokens.len(),
{
    if tokens.len() == 0 || !goes_on(g) {
        g
    } else {
        run(after_token(g, tokens[0].0, tokens[0].1), tokens.skip(1))
    }
}

/// The texts of tokens, one behind the other.
pub open spec fn text_of(tokens: Seq<(bool, Seq<char>)>) -> Seq<char>
    decreases tokens.len(),
{
    if tokens.len() == 0 {
        seq![]
    } else {
        text_of(tokens.drop_last()) + tokens.last().1
    }
}

/// The position of token `i` behind a prompt of so many tokens.
pub open spec fn position(prompt_tokens: int, i: nat) -> int {
    if prompt_tokens + i < i32::MAX {
        prompt_tokens + i
    } else {
        i32::MAX as int
    }
}

impl View for Generation {
    type V = GenerationView;

    closed spec fn view(&self) -> GenerationView {
        GenerationView {
            generated: self.generated@,
            fed: self.fed as nat,
            next_pos: self.next_pos as int,
            done: self.done,
        }
    }
}

proof fn lemma_empty_goes_on()
    ensures
        !text_ends_run(Seq::<char>::empty()),
{
    reveal_strlit("<|SPEECH_GENERATION_END|>");
    assert(END_MARK@.len() > 0);
    assert(encode_utf8(Seq::<char>::empty()).len() == 0);
}

impl Generation {
    /// At most the allowed number of tokens were fed back, at positions that are no negative
    /// numbers, and a run that was not ended has a text that does not end it.
    pub open spec fn wf(self) -> bool {
        &&& self@.fed <= MAX_NEW_TOKENS
        &&& 0 <= self@.next_pos <= i32::MAX
        &&& !self@.done ==> !text_ends_run(self@.generated)
    }

    /// Starts a run behind a prompt of so many tokens.
    pub fn start(prompt_tokens: usize) -> (r: Result<Generation, ApiError>)
        ensures
            match r {
                Ok(g) => 0 < prompt_tokens <= i32::MAX && g.wf() && g@ == started(
                    prompt_tokens as int,
                ),
                Err(e) => e.says(
                    ErrorKind::Internal,
                    if prompt_tokens == 0 {
                        "prompt produced no tokens"@
                    } else if prompt_tokens == 0x8000_0000 {
                        "prompt token length overflow"@
                    } else {
                        "prompt token position overflow"@
                    },
                ) && (prompt_tokens == 0 || prompt_tokens > i32::MAX),
            },
    {
        if prompt_tokens == 0 {
            Err(error::internal("prompt produced no tokens"))
        } else if prompt_tokens > 0x8000_0000 {
            Err(error::internal("prompt token position overflow"))
        } else if prompt_tokens == 0x8000_0000 {
            Err(error::internal("prompt token length overflow"))
        } else {
            proof {
                lemma_empty_goes_on();
            }
            Ok(
                Generation {
                    generated: String::new(),
                    fed: 0,
                    next_pos: prompt_tokens as i32,
                    done: false,
                },
            )
        }
    }

    /// Whether another token is to be sampled.
    pub fn wants_token(&self) -> (r: bool)
        ensures
            r == goes_on(self@),
    {
        !self.done && self.fed < MAX_NEW_TOKENS
    }

    /// Takes a sampled token: whether it ends the generation, and the text that it stands for.
    pub fn on_token(&mut self, end: bool, piece: &str) -> (r: Step)
        requires
            old(self).wf(),
            goes_on(old(self)@),
        ensures
            final(self).wf(),
            final(self)@ == after_token(old(self)@, end, piece@),
            r == if final(self)@.done {
                Step::Stop
            } else {
                Step::Feed(old(self)@.next_pos as i32)
            },
    {
        if end {
            self.done = true;
            return Step::Stop;
        }
        self.generated.append(piece);
        if text::contains(self.generated.as_str(), END_MARK) {
            self.done = true;
            return Step::Stop;
        }
        if self.generated.as_str().as_bytes().len() > MAX_GENERATED_BYTES {
            self.done = true;
            return Step::Stop;
        }
        let pos: i32 = self.next_pos;
        self.fed = self.fed + 1;
        if self.next_pos < i32::MAX {
            self.next_pos = self.next_pos + 1;
        }
        Step::Feed(pos)
    }

    /// The text that the model wrote.
    pub fn finish(self) -> (r: String)
        ensures
            r@ == self@.generated,
    {
        self.generated
    }
}

/// After `i` tokens of a run behind a prompt of so many tokens, none of which has ended it.
spec fn going(g: GenerationView, prompt_tokens: int, tokens: Seq<(bool, Seq<char>)>, i: nat) -> bool {
    &&& i <= tokens.len()
    &&& i <= MAX_NEW_TOKENS
    &&& g == (GenerationView {
        generated: text_of(tokens.take(i as int)),
        fed: i,
        next_pos: position(prompt_tokens, i),
        done: false,
    })
    &&& forall|j: int| 0 <= j < i ==> !(#[trigger] tokens[j]).0
    &&& forall|j: int| 0 <= j <= i ==> !text_ends_run(text_of(#[trigger] tokens.take(j)))
}

proof fn lemma_run(
    g: GenerationView,
    prompt_tokens: int,
    tokens: Seq<(bool, Seq<char>)>,
    i: nat,
) -> (k: nat)
    requires
        0 < prompt_tokens <= i32::MAX,
        going(g, prompt_tokens, tokens, i),
    ensures
        ended_after(prompt_tokens, tokens, run(g, tokens.skip(i as int)), k),
    decreases tokens.len() - i,
{
    let rest = tokens.skip(i as int);
    if rest.len() == 0 || i == MAX_NEW_TOKENS {
        assert(run(g, rest) == g);
        i
    } else {
        let (end, piece) = rest[0];
        assert(rest[0] == tokens[i as int]);
        let next = after_token(g, end, piece);
        assert(run(g, rest) == run(next, rest.skip(1)));
        assert(rest.skip(1) =~= tokens.skip(i as int + 1));
        let longer = tokens.take(i as int + 1);
        assert(longer.drop_last() =~= tokens.take(i as int));
        assert(text_of(longer) == text_of(tokens.take(i as int)) + piece);
        if end {
            assert(run(next, rest.skip(1)) == next);
            i
        } else if text_ends_run(g.generated + piece) {
            assert(run(next, rest.skip(1)) == next);
            i + 1
        } else {
            lemma_run(next, prompt_tokens, tokens, i + 1)
        }
    }
}

/// A run has taken the texts of the first `k` of these tokens, at most 2048, none of which ends the
/// generation, and it has taken no text behind one that ends the run. It has stopped there because
/// there are no more tokens, because it has taken as many as allowed, because the next one ends the
/// generation, or because its text ends it; the last two have ended it. The tokens whose text did not
/// end it were fed back, each at the position behind the one before.
pub open spec fn ended_after(
    prompt_tokens: int,
    tokens: Seq<(bool, Seq<char>)>,
    g: GenerationView,
    k: nat,
) -> bool {
    &&& k <= tokens.len()
    &&& k <= MAX_NEW_TOKENS
    &&& g.generated == text_of(tokens.take(k as int))
    &&& forall|j: int| 0 <= j < k ==> !(#[trigger] tokens[j]).0
    &&& forall|j: int| 0 <= j < k ==> !text_ends_run(text_of(#[trigger] tokens.take(j)))
    &&& g.done == (text_ends_run(g.generated) || (k < tokens.len() && k < MAX_NEW_TOKENS
        && tokens[k as int].0))
    &&& !g.done ==> k == tokens.len() || k == MAX_NEW_TOKENS
    &&& g.fed == if text_ends_run(g.generated) {
        k - 1
    } else {
        k as int
    }
    &&& g.next_pos == position(prompt_tokens, g.fed)
}

/// A whole run takes the texts of the first tokens that the model samples, up to an end token, a text
/// that ends it or the allowed number, and nothing behind that.
pub proof fn a_run_takes_the_first_tokens(
    prompt_tokens: int,
    tokens: Seq<(bool, Seq<char>)>,
) -> (k: nat)
    requires
        0 < prompt_tokens <= i32::MAX,
    ensures
        ended_after(prompt_tokens, tokens, run(started(prompt_tokens), tokens), k),
{
    lemma_empty_goes_on();
    let g = started(prompt_tokens);
    assert(tokens.take(0) =~= seq![]);
    assert(tokens.skip(0) =~= tokens);
    assert(text_of(tokens.take(0)) =~= seq![]);
    assert forall|j: int| 0 <= j <= 0 implies !text_ends_run(text_of(#[trigger] tokens.take(j))) by {
        assert(j == 0);
    }
    lemma_run(g, prompt_tokens, tokens, 0)
}

/// A run that has stopped stays as it is, whatever the model would sample.
pub proof fn a_stopped_run_stays(g: GenerationView, tokens: Seq<(bool, Seq<char>)>)
    requires
        !goes_on(g),
    ensures
        run(g, tokens) == g,
{
}

/// The numbers of two rows of digits, one behind the other, are those of the first and then those of
/// the second; a row gives its number if that fits in 32 bits, and otherwise none.
pub proof fn numbers_come_one_by_one(a: Seq<Seq<char>>, b: Seq<Seq<char>>, d: Seq<char>)
    ensures
        ids_of(a + b) == ids_of(a) + ids_of(b),
        decimal::value_of(d) < 0x1_0000_0000 ==> ids_of(seq![d]) == seq![
            decimal::value_of(d) as u32,
        ],
        decimal::value_of(d) >= 0x1_0000_0000 ==> ids_of(seq![d]).len() == 0,
    decreases b.len(),
{
    assert(seq![d].drop_last() =~= seq![]);
    reveal_with_fuel(ids_of, 2);
    if decimal::value_of(d) < 0x1_0000_0000 {
        assert(ids_of(seq![d]) =~= seq![decimal::value_of(d) as u32]);
    }
    if b.len() == 0 {
        assert(a + b =~= a);
        assert(ids_of(a) =~= ids_of(a) + ids_of(b));
    } else {
        assert((a + b).drop_last() =~= a + b.drop_last());
        assert((a + b).last() == b.last());
        numbers_come_one_by_one(a, b.drop_last(), d);
        assert(ids_of(a + b) =~= ids_of(a) + ids_of(b));
    }
}

/// A token gives its number wherever it stands: text without an opening bracket before it does not
/// change what is read, and reading goes on behind it. A number that does not fit in 32 bits is
/// passed over.
pub proof fn a_token_is_read_among_other_text(p: Seq<char>, id: nat, q: Seq<char>)
    requires
        forall|i: int| 0 <= i < p.len() ==> #[trigger] p[i] != '<',
    ensures
        speech_ids(p + q) == speech_ids(q),
        speech_ids(p) == Seq::<u32>::empty(),
        id < 0x1_0000_0000 ==> speech_ids(
            p + ("<|speech_"@ + decimal::digits_of(id) + "|>"@ + q),
        ) == seq![id as u32] + speech_ids(q),
        id >= 0x1_0000_0000 ==> speech_ids(
            p + ("<|speech_"@ + decimal::digits_of(id) + "|>"@ + q),
        ) == speech_ids(q),
{
    reveal_strlit("<|speech_");
    reveal_strlit("|>");
    let d = decimal::digits_of(id);
    let t = "<|speech_"@ + d + "|>"@ + q;
    assert("<|speech_"@ =~= patterns::token_open());
    assert("|>"@ =~= seq!['|', '>']);
    assert(t =~= token_text(id) + q);
    lemma_no_token(p, t);
    lemma_no_token(p, q);
    lemma_no_token(p, Seq::empty());
    assert(p + Seq::<char>::empty() =~= p);
    assert(patterns::speech_digits(Seq::<char>::empty()) =~= seq![]);
    assert(ids_of(Seq::empty()) =~= seq![]);
    lemma_token(id, q);
    decimal::lemma_digits(id);
    numbers_come_one_by_one(seq![d], patterns::speech_digits(q), d);
    if id >= 0x1_0000_0000 {
        assert(ids_of(seq![d]) + speech_ids(q) =~= speech_ids(q));
    }
}

/// A text goes on as long as the end mark stands nowhere in it and it has at most 131072 bytes.
pub proof fn when_a_text_ends_a_run(s: Seq<char>, p: Seq<char>, q: Seq<char>)
    ensures
        text_ends_run(p + "<|SPEECH_GENERATION_END|>"@ + q),
        encode_utf8(s).len() > 131072 ==> text_ends_run(s),
        encode_utf8(s).len() <= 131072 && (forall|i: int|
            !text::occurs_at(s, "<|SPEECH_GENERATION_END|>"@, i)) ==> !text_ends_run(s),
{
    let m = "<|SPEECH_GENERATION_END|>"@;
    let t = p + m + q;
    let i = p.len() as int;
    assert(t.subrange(i, i + m.len()) =~= m);
    assert(text::occurs_at(t, m, i));
}

/// The numbers of two rows of matches, one behind the other, are those of the first and then those
/// of the second; a match gives the number that its first group denotes, if that fits in 32 bits,
/// and otherwise none.
pub proof fn matches_are_read_one_by_one(
    a: Seq<Seq<Option<Seq<char>>>>,
    b: Seq<Seq<Option<Seq<char>>>>,
    d: Seq<char>,
)
    ensures
        group_ids(a + b) == group_ids(a) + group_ids(b),
        decimal::parsed(d, 0xffff_ffff) matches Some(v) ==> group_ids(seq![seq![Some(d)]]) == seq![
            v as u32,
        ],
        decimal::parsed(d, 0xffff_ffff) is None ==> group_ids(seq![seq![Some(d)]]).len() == 0,
        group_ids(seq![seq![None]]).len() == 0,
    decreases b.len(),
{
    reveal_with_fuel(group_ids, 2);
    let some: Seq<Option<Seq<char>>> = seq![Some(d)];
    let none: Seq<Option<Seq<char>>> = seq![None];
    assert(seq![some].drop_last() =~= seq![]);
    assert(seq![none].drop_last() =~= seq![]);
    match decimal::parsed(d, 0xffff_ffff) {
        Some(v) => assert(group_ids(seq![some]) =~= seq![v as u32]),
        None => {},
    }
    if b.len() == 0 {
        assert(a + b =~= a);
        assert(group_ids(a) =~= group_ids(a) + group_ids(b));
    } else {
        assert((a + b).drop_last() =~= a + b.drop_last());
        assert((a + b).last() == b.last());
        matches_are_read_one_by_one(a, b.drop_last(), d);
        assert(group_ids(a + b) =~= group_ids(a) + group_ids(b));
    }
}

/// Text in which no token starts is passed over, whatever else it holds.
pub proof fn text_without_a_token_is_passed_over(p: Seq<char>, q: Seq<char>)
    requires
        forall|i: int| 0 <= i < p.len() ==> !text::occurs_at(p + q, "<|speech_"@, i),
    ensures
        speech_ids(p + q) == speech_ids(q),
    decreases p.len(),
{
    reveal_strlit("<|speech_");
    assert("<|speech_"@ =~= patterns::token_open());
    let s = p + q;
    if p.len() == 0 {
        assert(s =~= q);
    } else {
        let t = p.skip(1);
        let u = t + q;
        assert(s.skip(1) =~= u);
        assert(!text::occurs_at(s, "<|speech_"@, 0));
        assert forall|i: int| 0 <= i < t.len() implies !text::occurs_at(u, "<|speech_"@, i) by {
            if text::occurs_at(u, "<|speech_"@, i) {
                assert(s.subrange(i + 1, i + 10) =~= u.subrange(i, i + 9));
                assert(text::occurs_at(s, "<|speech_"@, i + 1));
            }
        }
        text_without_a_token_is_passed_over(t, q);
    }
}

} // verus!
