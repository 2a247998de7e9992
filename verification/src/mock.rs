//! Speech tokens without a model: the tokens are mixed from the request itself.
use crate::bytes;
use crate::decimal;
use crate::speech;
use crate::voice::EMBEDDING_LEN;
use vstd::prelude::*;
use vstd::string::*;
use vstd::utf8::*;

verus! {

/// The number of bytes that a request is mixed into.
pub const SEED_LEN: usize = 32;

/// The fewest tokens of an answer.
pub const MIN_TOKENS: usize = 96;

/// The most tokens of an answer.
pub const MAX_TOKENS: usize = 512;

/// The seed with a byte mixed in; places behind the end count on from the start.
pub open spec fn mixed(seed: Seq<u8>, at: int, b: u8) -> Seq<u8> {
    seed.update(at % SEED_LEN as int, seed[at % SEED_LEN as int] ^ b)
}

/// The seed with a row of bytes mixed in, the first of them at `from`.
pub open spec fn with_bytes(seed: Seq<u8>, row: Seq<u8>, from: int) -> Seq<u8>
    decreases row.len(),
{
    if row.len() == 0 {
        seed
    } else {
        mixed(with_bytes(seed, row.drop_last(), from), from + row.len() - 1, row.last())
    }
}

/// The seed with the bytes of values mixed in, those of value `i` from place `i` on.
pub open spec fn with_values(seed: Seq<u8>, values: Seq<u32>) -> Seq<u8>
    decreases values.len(),
{
    if values.len() == 0 {
        seed
    } else {
        with_bytes(
            with_values(seed, values.drop_last()),
            bytes::le4(values.last() as int),
            values.len() - 1,
        )
    }
}

/// The values of an embedding that are mixed in.
pub open spec fn used_values(values: Seq<u32>) -> Seq<u32> {
    if values.len() <= EMBEDDING_LEN {
        values
    } else {
        values.take(EMBEDDING_LEN as int)
    }
}

/// The seed of a request: the bytes of the prompt, the embedding, the temperature and the number
/// of candidates are mixed into zeros.
pub open spec fn seed_of(prompt: Seq<u8>, values: Seq<u32>, temperature: u32, top_k: u32) -> Seq<
    u8,
> {
    let zeros = Seq::new(SEED_LEN as nat, |i: int| 0u8);
    let told = with_values(with_bytes(zeros, prompt, 0), used_values(values));
    with_bytes(with_bytes(told, bytes::le4(temperature as int), 0), bytes::le4(top_k as int), 7)
}

/// One token for six bytes of the prompt, within the limits.
pub open spec fn token_count(prompt_bytes: nat) -> nat {
    if prompt_bytes / 6 < MIN_TOKENS {
        MIN_TOKENS as nat
    } else if prompt_bytes / 6 > MAX_TOKENS {
        MAX_TOKENS as nat
    } else {
        prompt_bytes / 6
    }
}

/// The number of candidates, but at least one.
pub open spec fn at_least_one(top_k: u32) -> int {
    if top_k == 0 {
        1
    } else {
        top_k as int
    }
}

/// Token `i` of the answer to a seed.
pub open spec fn token_at(seed: Seq<u8>, top_k: u32, i: int) -> u32 {
    let pair = 256 * seed[(2 * i) % SEED_LEN as int] + seed[(2 * i + 1) % SEED_LEN as int];
    ((pair + (i + 1) * at_least_one(top_k)) % 0x1_0000_0000 % 65535) as u32
}

/// The tokens of the answer to a request.
pub open spec fn mock_tokens(
    prompt: Seq<char>,
    values: Seq<u32>,
    temperature: u32,
    top_k: u32,
) -> Seq<u32> {
    let coded = encode_utf8(prompt);
    let seed = seed_of(coded, values, temperature, top_k);
    Seq::new(token_count(coded.len()), |i: int| token_at(seed, top_k, i))
}

/// Mixes a byte into the seed.
fn mix(seed: &mut Vec<u8>, at: usize, b: u8)
    requires
        old(seed)@.len() == SEED_LEN,
    ensures
        final(seed)@ == mixed(old(seed)@, at as int, b),
        final(seed)@.len() == SEED_LEN,
{
    let place: usize = at % SEED_LEN;
    let was: u8 = seed[place];
    seed.set(place, was ^ b);
}

/// Mixes the bytes of a number into the seed.
fn mix_number(seed: &mut Vec<u8>, from: usize, v: u32)
    requires
        old(seed)@.len() == SEED_LEN,
        from <= EMBEDDING_LEN,
    ensures
        final(seed)@ == with_bytes(old(seed)@, bytes::le4(v as int), from as int),
        final(seed)@.len() == SEED_LEN,
{
    let row = bytes::le4_bytes(v);
    let ghost start = seed@;
    let mut i: usize = 0;
    assert(row@.take(0) =~= seq![]);
    while i < row.len()
        invariant
            i <= row@.len(),
            row@.len() == 4,
            from <= EMBEDDING_LEN,
            seed@.len() == SEED_LEN,
            seed@ == with_bytes(start, row@.take(i as int), from as int),
        decreases row@.len() - i,
    {
        mix(seed, from + i, row[i]);
        assert(row@.take(i + 1).drop_last() =~= row@.take(i as int));
        i = i + 1;
    }
    assert(row@.take(4) =~= row@);
}

/// The seed of a request.
fn make_seed(prompt: &str, values: &Vec<u32>, temperature: u32, top_k: u32) -> (r: Vec<u8>)
    ensures
        r@ == seed_of(encode_utf8(prompt@), values@, temperature, top_k),
        r@.len() == SEED_LEN,
{
    let mut seed: Vec<u8> = Vec::new();
    let mut i: usize = 0;
    while i < SEED_LEN
        invariant
            i <= SEED_LEN,
            seed@ == Seq::new(i as nat, |j: int| 0u8),
        decreases SEED_LEN - i,
    {
        seed.push(0);
        i = i + 1;
        assert(seed@ =~= Seq::new(i as nat, |j: int| 0u8));
    }
    let ghost zeros = seed@;
    let row = prompt.as_bytes();
    let ghost coded = encode_utf8(prompt@);
    i = 0;
    assert(coded.take(0) =~= seq![]);
    while i < row.len()
        invariant
            i <= row@.len(),
            row@ == coded,
            seed@.len() == SEED_LEN,
            seed@ == with_bytes(zeros, coded.take(i as int), 0),
        decreases row@.len() - i,
    {
        mix(&mut seed, i, row[i]);
        assert(coded.take(i + 1).drop_last() =~= coded.take(i as int));
        i = i + 1;
    }
    assert(coded.take(coded.len() as int) =~= coded);
    let ghost with_prompt = seed@;
    let ghost used = used_values(values@);
    i = 0;
    assert(used.take(0) =~= seq![]);
    while i < values.len() && i < EMBEDDING_LEN
        invariant
            i <= used.len(),
            used == used_values(values@),
            seed@.len() == SEED_LEN,
            seed@ == with_values(with_prompt, used.take(i as int)),
        decreases values@.len() - i,
    {
        mix_number(&mut seed, i, values[i]);
        assert(used.take(i + 1).drop_last() =~= used.take(i as int));
        i = i + 1;
    }
    assert(used.take(used.len() as int) =~= used);
    mix_number(&mut seed, 0, temperature);
    mix_number(&mut seed, 7, top_k);
    seed
}

/// The number of tokens for a prompt.
fn count_of(prompt: &str) -> (r: usize)
    ensures
        r == token_count(encode_utf8(prompt@).len()),
        r <= MAX_TOKENS,
{
    let len: usize = prompt.as_bytes().len();
    if len / 6 < MIN_TOKENS {
        MIN_TOKENS
    } else if len / 6 > MAX_TOKENS {
        MAX_TOKENS
    } else {
        len / 6
    }
}

proof fn lemma_tokens_text_push(ids: Seq<u32>, id: u32)
    ensures
        speech::tokens_text(ids.push(id)) == speech::tokens_text(ids) + speech::token_text(
            id as nat,
        ),
    decreases ids.len(),
{
    let all = ids.push(id);
    if ids.len() == 0 {
        assert(all.skip(1) =~= seq![]);
        assert(speech::tokens_text(all.skip(1)) =~= seq![]);
        assert(speech::tokens_text(all) =~= speech::tokens_text(ids) + speech::token_text(
            id as nat,
        ));
    } else {
        assert(all.skip(1) =~= ids.skip(1).push(id));
        lemma_tokens_text_push(ids.skip(1), id);
        assert(speech::tokens_text(all) =~= speech::tokens_text(ids) + speech::token_text(
            id as nat,
        ));
    }
}

/// Whether a request can be answered: the numbers that the tokens are mixed with fit in 32 bits.
pub fn mock_fits(prompt: &str, top_k: u32) -> (r: bool)
    ensures
        r == (token_count(encode_utf8(prompt@).len()) * at_least_one(top_k) <= u32::MAX),
{
    let count: u64 = count_of(prompt) as u64;
    let factor: u64 = if top_k == 0 {
        1
    } else {
        top_k as u64
    };
    assert(count * factor <= 512 * 0xffff_ffff) by (nonlinear_arith)
        requires
            count <= 512,
            factor <= 0xffff_ffff,
    ;
    count * factor <= 0xffff_ffff
}

/// Answers a request without a model. Reading the answer gives its tokens back.
pub fn generate_mock_speech_tokens(
    prompt: &str,
    values: &Vec<u32>,
    temperature: u32,
    top_k: u32,
) -> (r: String)
    requires
        token_count(encode_utf8(prompt@).len()) * at_least_one(top_k) <= u32::MAX,
    ensures
        r@ == speech::tokens_text(mock_tokens(prompt@, values@, temperature, top_k)),
        speech::speech_ids(r@) == mock_tokens(prompt@, values@, temperature, top_k),
{
    let seed = make_seed(prompt, values, temperature, top_k);
    let count: usize = count_of(prompt);
    let factor: u32 = if top_k == 0 {
        1
    } else {
        top_k
    };
    let ghost tokens = mock_tokens(prompt@, values@, temperature, top_k);
    let mut out = String::new();
    let mut i: usize = 0;
    assert(tokens.take(0) =~= seq![]);
    while i < count
        invariant
            i <= count,
            count <= MAX_TOKENS,
            count * factor <= u32::MAX,
            factor == at_least_one(top_k),
            seed@.len() == SEED_LEN,
            tokens.len() == count,
            tokens == Seq::new(count as nat, |j: int| token_at(seed@, top_k, j)),
            out@ == speech::tokens_text(tokens.take(i as int)),
        decreases count - i,
    {
        let high: u32 = seed[(i * 2) % SEED_LEN] as u32;
        let low: u32 = seed[(i * 2 + 1) % SEED_LEN] as u32;
        assert((i + 1) * factor <= count * factor) by (nonlinear_arith)
            requires
                i + 1 <= count,
                factor >= 0,
        ;
        let step: u32 = (i as u32 + 1) * factor;
        let token: u32 = (256 * high + low).wrapping_add(step) % 65535;
        assert(token == tokens[i as int]);
        out.append("<|speech_");
        out.append(decimal::render(token as u64).as_str());
        out.append("|>");
        proof {
            reveal_strlit("<|speech_");
            reveal_strlit("|>");
            let before = speech::tokens_text(tokens.take(i as int));
            assert(out@ =~= before + speech::token_text(token as nat));
            lemma_tokens_text_push(tokens.take(i as int), token);
            assert(tokens.take(i + 1) =~= tokens.take(i as int).push(token));
        }
        i = i + 1;
    }
    proof {
        assert(tokens.take(count as int) =~= tokens);
        speech::reading_undoes_writing(tokens);
    }
    out
}

/// The longer the prompt, the more tokens there are: one for six bytes, but at least 96 and at most
/// 512.
pub proof fn how_many_tokens_there_are(
    prompt: Seq<char>,
    values: Seq<u32>,
    temperature: u32,
    top_k: u32,
)
    ensures
        encode_utf8(prompt).len() < 576 ==> mock_tokens(prompt, values, temperature, top_k).len()
            == 96,
        576 <= encode_utf8(prompt).len() < 3072 ==> {
            let n = mock_tokens(prompt, values, temperature, top_k).len();
            6 * n <= encode_utf8(prompt).len() < 6 * n + 6
        },
        encode_utf8(prompt).len() >= 3072 ==> mock_tokens(prompt, values, temperature, top_k).len()
            == 512,
{
}

/// Sixteen tokens on the same bytes of the seed are used again, so that the token has grown by
/// sixteen times the number of candidates, counted round 65535.
pub proof fn tokens_grow_with_the_candidates(seed: Seq<u8>, top_k: u32, i: int)
    requires
        seed.len() == 32,
        0 <= i < 512,
        top_k <= 8000000,
    ensures
        token_at(seed, top_k, i) < 65535,
        token_at(seed, top_k, i + 16) == (token_at(seed, top_k, i) + 16 * (if top_k == 0 {
            1
        } else {
            top_k as int
        })) % 65535,
        top_k <= 1 && i == 0 && 256 * seed[0] + seed[1] + 1 < 65535 ==> token_at(seed, top_k, i)
            == 256 * seed[0] + seed[1] + 1,
{
    let k = at_least_one(top_k);
    let pair = 256 * seed[(2 * i) % 32] + seed[(2 * i + 1) % 32];
    assert((2 * (i + 16)) % 32 == (2 * i) % 32);
    assert((2 * (i + 16) + 1) % 32 == (2 * i + 1) % 32);
    let a = pair + (i + 1) * k;
    let b = pair + (i + 17) * k;
    assert(b == a + 16 * k) by (nonlinear_arith)
        requires
            a == pair + (i + 1) * k,
            b == pair + (i + 17) * k,
    ;
    assert(0 <= (i + 1) * k <= 512 * 8000000) by (nonlinear_arith)
        requires
            0 <= i < 512,
            0 <= k <= 8000000,
    ;
    assert(0 <= pair <= 65535);
    if top_k <= 1 && i == 0 {
        assert((i + 1) * k == 1);
    }
    assert(0 <= a < 0x1_0000_0000 && 0 <= b < 0x1_0000_0000);
    assert(b % 65535 == (a % 65535 + 16 * k) % 65535) by {
        vstd::arithmetic::div_mod::lemma_add_mod_noop_right(16 * k, a, 65535);
    }
}

/// Mixing a byte in changes one place of the seed and no other, and mixing it in again undoes it.
pub proof fn mixing_twice_undoes_it(seed: Seq<u8>, at: int, b: u8, i: int)
    requires
        seed.len() == 32,
        0 <= at,
        0 <= i < 32,
    ensures
        mixed(seed, at, b)[i] == if i == at % 32 {
            seed[i] ^ b
        } else {
            seed[i]
        },
        mixed(mixed(seed, at, b), at, b) == seed,
{
    let p = at % 32;
    let x = seed[p];
    assert((x ^ b) ^ b == x) by (bit_vector);
    assert(mixed(mixed(seed, at, b), at, b) =~= seed);
}

/// Each further byte of the prompt, and each byte of a further value of the embedding, is mixed in
/// at the place behind the one before; only the first 128 values of an embedding count.
pub proof fn bytes_are_mixed_in_one_by_one(
    seed: Seq<u8>,
    row: Seq<u8>,
    b: u8,
    from: int,
    values: Seq<u32>,
    v: u32,
    prompt: Seq<u8>,
    temperature: u32,
    top_k: u32,
)
    ensures
        with_bytes(seed, row.push(b), from) == mixed(
            with_bytes(seed, row, from),
            from + row.len(),
            b,
        ),
        with_values(seed, values.push(v)) == with_bytes(
            with_values(seed, values),
            bytes::le4(v as int),
            values.len() as int,
        ),
        values.len() > 128 ==> seed_of(prompt, values, temperature, top_k) == seed_of(
            prompt,
            values.take(128),
            temperature,
            top_k,
        ),
{
    assert(row.push(b).drop_last() =~= row);
    assert(values.push(v).drop_last() =~= values);
    if values.len() > 128 {
        assert(values.take(128).take(128) =~= values.take(128));
    }
}

proof fn lemma_zeros_mixed_in(seed: Seq<u8>, from: int)
    requires
        seed.len() == 32,
        from >= 0,
    ensures
        with_bytes(seed, bytes::le4(0), from) == seed,
{
    let z = bytes::le4(0);
    assert(z =~= seq![0u8, 0, 0, 0]);
    assert forall|at: int| 0 <= at implies #[trigger] mixed(seed, at, 0u8) == seed by {
        let x = seed[at % 32];
        assert(x ^ 0u8 == x) by (bit_vector);
        assert(mixed(seed, at, 0u8) =~= seed);
    }
    let z3 = z.drop_last();
    let z2 = z3.drop_last();
    let z1 = z2.drop_last();
    reveal_with_fuel(with_bytes, 5);
    assert(z1.drop_last() =~= seq![]);
    assert(with_bytes(seed, z1, from) == mixed(seed, from, 0u8));
    assert(with_bytes(seed, z2, from) == mixed(seed, from + 1, 0u8));
    assert(with_bytes(seed, z3, from) == mixed(seed, from + 2, 0u8));
    assert(with_bytes(seed, z, from) == mixed(seed, from + 3, 0u8));
}

proof fn lemma_short_prompt(prompt: Seq<u8>, i: int)
    requires
        prompt.len() <= 32,
        0 <= i < 32,
    ensures
        with_bytes(Seq::new(32, |k: int| 0u8), prompt, 0)[i] == if i < prompt.len() {
            prompt[i]
        } else {
            0
        },
        with_bytes(Seq::new(32, |k: int| 0u8), prompt, 0).len() == 32,
    decreases prompt.len(),
{
    if prompt.len() > 0 {
        let head = prompt.drop_last();
        lemma_short_prompt(head, i);
        lemma_short_prompt(head, prompt.len() - 1);
        let b = prompt.last();
        assert(0u8 ^ b == b) by (bit_vector);
    }
}

/// The seed of a prompt of at most 32 bytes, with nothing else to be mixed in, is the prompt itself,
/// filled up with zeros.
pub proof fn the_seed_of_a_short_prompt(prompt: Seq<u8>, i: int)
    requires
        prompt.len() <= 32,
        0 <= i < 32,
    ensures
        seed_of(prompt, seq![], 0, 0)[i] == if i < prompt.len() {
            prompt[i]
        } else {
            0
        },
{
    lemma_short_prompt(prompt, i);
    let zeros = Seq::new(SEED_LEN as nat, |i: int| 0u8);
    assert(zeros =~= Seq::new(32, |k: int| 0u8));
    let told = with_bytes(zeros, prompt, 0);
    assert(with_values(told, used_values(seq![])) == told);
    lemma_zeros_mixed_in(told, 0);
    lemma_zeros_mixed_in(told, 7);
}

} // verus!
