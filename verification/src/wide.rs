//! UTF-16, in which the system takes and gives text.
use crate::text;
use vstd::prelude::*;
use vstd::string::*;

verus! {

/// The units of a character: one, or a pair of surrogates.
pub open spec fn units(c: char) -> Seq<u16> {
    let v = c as u32 as int;
    if v < 0x10000 {
        seq![v as u16]
    } else {
        seq![
            (0xd800 + (v - 0x10000) / 0x400) as u16,
            (0xdc00 + (v - 0x10000) % 0x400) as u16,
        ]
    }
}

/// The units of a text.
pub open spec fn utf16(s: Seq<char>) -> Seq<u16>
    decreases s.len(),
{
    if s.len() == 0 {
        seq![]
    } else {
        units(s[0]) + utf16(s.skip(1))
    }
}

/// The first unit of a pair.
pub open spec fn high(u: u16) -> bool {
    0xd800 <= u <= 0xdbff
}

/// The second unit of a pair.
pub open spec fn low(u: u16) -> bool {
    0xdc00 <= u <= 0xdfff
}

/// The code point of a pair.
pub open spec fn pair(a: u16, b: u16) -> int {
    0x10000 + (a - 0xd800) * 0x400 + (b - 0xdc00)
}

/// The text of a row of units; half a pair becomes the replacement character.
pub open spec fn decoded(u: Seq<u16>) -> Seq<char>
    decreases u.len(),
{
    if u.len() == 0 {
        seq![]
    } else if !high(u[0]) && !low(u[0]) {
        seq![u[0] as char] + decoded(u.skip(1))
    } else if high(u[0]) && u.len() > 1 && low(u[1]) {
        seq![pair(u[0], u[1]) as char] + decoded(u.skip(2))
    } else {
        seq!['\u{fffd}'] + decoded(u.skip(1))
    }
}

/// The units before the first zero.
pub open spec fn before_zero(u: Seq<u16>) -> Seq<u16>
    decreases u.len(),
{
    if u.len() == 0 || u[0] == 0 {
        seq![]
    } else {
        seq![u[0]] + before_zero(u.skip(1))
    }
}

proof fn lemma_utf16_push(s: Seq<char>, c: char)
    ensures
        utf16(s.push(c)) == utf16(s) + units(c),
    decreases s.len(),
{
    let all = s.push(c);
    if s.len() == 0 {
        assert(utf16(all.skip(1)) =~= seq![]);
        assert(utf16(s) =~= seq![]);
        assert(utf16(all) =~= utf16(s) + units(c));
    } else {
        assert(all.skip(1) =~= s.skip(1).push(c));
        lemma_utf16_push(s.skip(1), c);
        assert(utf16(all) =~= utf16(s) + units(c));
    }
}

/// The units of a text.
fn encode(s: &str) -> (r: Vec<u16>)
    ensures
        r@ == utf16(s@),
{
    let cs = text::chars_of(s);
    let mut r: Vec<u16> = Vec::new();
    let mut i: usize = 0;
    assert(cs@.take(0) =~= seq![]);
    while i < cs.len()
        invariant
            i <= cs@.len(),
            r@ == utf16(cs@.take(i as int)),
        decreases cs@.len() - i,
    {
        let c = cs[i];
        let v: u32 = c as u32;
        proof {
            lemma_utf16_push(cs@.take(i as int), c);
            assert(cs@.take(i + 1) =~= cs@.take(i as int).push(c));
        }
        if v < 0x10000 {
            r.push(v as u16);
        } else {
            r.push((0xd800 + (v - 0x10000) / 0x400) as u16);
            r.push((0xdc00 + (v - 0x10000) % 0x400) as u16);
        }
        i = i + 1;
        assert(r@ =~= utf16(cs@.take(i as int)));
    }
    assert(cs@.take(cs@.len() as int) =~= cs@);
    r
}

/// The units of a text and a zero behind them.
pub fn to_wide(s: &str) -> (r: Vec<u16>)
    ensures
        r@ == utf16(s@).push(0),
{
    let mut r = encode(s);
    r.push(0);
    r
}

/// A row of `len` units with a text in front and zeros behind; of a text that is too long the end
/// is cut off, so that the last unit is zero.
pub fn fill_wide_buffer(s: &str, len: usize) -> (r: Vec<u16>)
    ensures
        r@.len() == len,
        forall|i: int|
            0 <= i < len ==> #[trigger] r@[i] == if i < utf16(s@).len() && i < len - 1 {
                utf16(s@)[i]
            } else {
                0
            },
{
    let w = encode(s);
    let mut r: Vec<u16> = Vec::new();
    let mut i: usize = 0;
    while i < len
        invariant
            i <= len,
            r@.len() == i,
            w@ == utf16(s@),
            forall|k: int|
                0 <= k < i ==> #[trigger] r@[k] == if k < utf16(s@).len() && k < len - 1 {
                    utf16(s@)[k]
                } else {
                    0
                },
        decreases len - i,
    {
        if i < w.len() && i < len - 1 {
            r.push(w[i]);
        } else {
            r.push(0);
        }
        i = i + 1;
    }
    r
}

/// The character with this code point.
fn char_at(v: u32) -> (r: char)
    requires
        v <= 0xd7ff || 0xe000 <= v <= 0x10ffff,
    ensures
        r as u32 == v,
{
    match char::from_u32(v) {
        Some(c) => c,
        None => '\u{fffd}',
    }
}

/// The text of a row of units; half a pair becomes the replacement character.
pub fn decode(u: &Vec<u16>) -> (r: String)
    ensures
        r@ == decoded(u@),
{
    let mut cs: Vec<char> = Vec::new();
    let mut i: usize = 0;
    assert(u@.skip(0) =~= u@);
    assert(cs@ + decoded(u@) =~= decoded(u@));
    while i < u.len()
        invariant
            i <= u@.len(),
            cs@ + decoded(u@.skip(i as int)) == decoded(u@),
        decreases u@.len() - i,
    {
        let a: u16 = u[i];
        let ghost rest = u@.skip(i as int);
        let ghost before = cs@;
        assert(rest[0] == a);
        assert(rest.skip(1) =~= u@.skip(i + 1));
        if a < 0xd800 || a > 0xdfff {
            let c = char_at(a as u32);
            cs.push(c);
            assert(c == a as char);
            assert(cs@ + decoded(rest.skip(1)) =~= before + decoded(rest));
            i = i + 1;
        } else if a <= 0xdbff && u.len() - i > 1 && u[i + 1] >= 0xdc00 && u[i + 1] <= 0xdfff {
            let b: u16 = u[i + 1];
            assert(rest[1] == b);
            assert(rest.skip(2) =~= u@.skip(i + 2));
            let v: u32 = 0x10000 + (a as u32 - 0xd800) * 0x400 + (b as u32 - 0xdc00);
            let c = char_at(v);
            cs.push(c);
            assert(c == pair(a, b) as char);
            assert(cs@ + decoded(rest.skip(2)) =~= before + decoded(rest));
            i = i + 2;
        } else {
            cs.push('\u{fffd}');
            assert(cs@ + decoded(rest.skip(1)) =~= before + decoded(rest));
            i = i + 1;
        }
    }
    assert(u@.skip(u@.len() as int) =~= seq![]);
    assert(decoded(u@.skip(u@.len() as int)) =~= seq![]);
    assert(cs@ =~= decoded(u@));
    let n: usize = cs.len();
    assert(cs@.subrange(0, n as int) =~= cs@);
    text::string_of(&cs, 0, n)
}

/// The text in a row of units, up to the first zero.
pub fn wide_text(u: &Vec<u16>) -> (r: String)
    ensures
        r@ == decoded(before_zero(u@)),
{
    let mut front: Vec<u16> = Vec::new();
    let mut i: usize = 0;
    assert(u@.skip(0) =~= u@);
    assert(front@ + before_zero(u@) =~= before_zero(u@));
    while i < u.len() && u[i] != 0
        invariant
            i <= u@.len(),
            front@ + before_zero(u@.skip(i as int)) == before_zero(u@),
        decreases u@.len() - i,
    {
        let ghost rest = u@.skip(i as int);
        let ghost before = front@;
        front.push(u[i]);
        assert(rest.skip(1) =~= u@.skip(i + 1));
        assert(front@ + before_zero(rest.skip(1)) =~= before + before_zero(rest));
        i = i + 1;
    }
    assert(before_zero(u@.skip(i as int)) =~= seq![]) by {
        if i < u@.len() {
            assert(u@.skip(i as int)[0] == u@[i as int]);
        }
    }
    assert(front@ =~= before_zero(u@));
    decode(&front)
}

proof fn lemma_units(c: char, rest: Seq<u16>)
    ensures
        decoded(units(c) + rest) == seq![c] + decoded(rest),
{
    let v = c as u32 as int;
    let all = units(c) + rest;
    if v < 0x10000 {
        assert(all[0] == v as u16);
        assert(all.skip(1) =~= rest);
        assert(all[0] as char == c);
    } else {
        let a = units(c)[0];
        let b = units(c)[1];
        assert(all[0] == a && all[1] == b);
        assert(all.skip(2) =~= rest);
        assert(pair(a, b) == v);
        assert(pair(a, b) as char == c);
    }
}

/// Reading the units of a text gives the text back.
pub proof fn decoding_undoes_encoding(s: Seq<char>)
    ensures
        decoded(utf16(s)) == s,
    decreases s.len(),
{
    if s.len() == 0 {
        assert(decoded(utf16(s)) =~= s);
    } else {
        decoding_undoes_encoding(s.skip(1));
        lemma_units(s[0], utf16(s.skip(1)));
        assert(seq![s[0]] + s.skip(1) =~= s);
    }
}

proof fn lemma_before_zero(u: Seq<u16>)
    requires
        forall|i: int| 0 <= i < u.len() ==> #[trigger] u[i] != 0,
    ensures
        before_zero(u.push(0)) == u,
    decreases u.len(),
{
    let all = u.push(0);
    if u.len() == 0 {
        assert(before_zero(all) =~= u);
    } else {
        assert(all[0] == u[0]);
        assert(all.skip(1) =~= u.skip(1).push(0));
        lemma_before_zero(u.skip(1));
        assert(before_zero(all) =~= u);
    }
}

proof fn lemma_units_not_zero(c: char)
    requires
        c != '\0',
    ensures
        forall|i: int| 0 <= i < units(c).len() ==> #[trigger] units(c)[i] != 0,
{
}

proof fn lemma_no_zero(s: Seq<char>)
    requires
        forall|i: int| 0 <= i < s.len() ==> #[trigger] s[i] != '\0',
    ensures
        forall|i: int| 0 <= i < utf16(s).len() ==> #[trigger] utf16(s)[i] != 0,
    decreases s.len(),
{
    if s.len() > 0 {
        let rest = s.skip(1);
        lemma_no_zero(rest);
        let first = units(s[0]);
        assert(s[0] != '\0');
        lemma_units_not_zero(s[0]);
        assert forall|i: int| 0 <= i < utf16(s).len() implies #[trigger] utf16(s)[i] != 0 by {
            if i < first.len() {
                assert(utf16(s)[i] == first[i]);
            } else {
                assert(utf16(s)[i] == utf16(rest)[i - first.len()]);
            }
        }
    }
}

/// A text without the zero character that was handed to the system comes back as it was.
pub proof fn wide_text_undoes_to_wide(s: Seq<char>)
    requires
        forall|i: int| 0 <= i < s.len() ==> #[trigger] s[i] != '\0',
    ensures
        decoded(before_zero(utf16(s).push(0))) == s,
{
    lemma_no_zero(s);
    lemma_before_zero(utf16(s));
    decoding_undoes_encoding(s);
}

/// A character below 65536 is one unit, its code point; a higher one is a pair that holds the ten
/// high and the ten low bits of what it is above that.
pub proof fn units_hold_the_code_point(c: char)
    ensures
        (c as u32) < 0x10000 ==> units(c).len() == 1 && units(c)[0] == c as u32,
        c as u32 >= 0x10000 ==> units(c).len() == 2 && 0xd800 <= units(c)[0] <= 0xdbff && 0xdc00
            <= units(c)[1] <= 0xdfff && 0x10000 + 1024 * (units(c)[0] - 0xd800) + (units(c)[1]
            - 0xdc00) == c as u32,
{
}

/// A text is decoded unit by unit: half a pair that is not followed by its other half becomes the
/// replacement character, and what follows it is decoded as it is.
pub proof fn half_a_pair_is_replaced(u: u16, rest: Seq<u16>)
    requires
        0xd800 <= u <= 0xdfff,
        u >= 0xdc00 || rest.len() == 0 || !(0xdc00 <= rest[0] <= 0xdfff),
    ensures
        decoded(seq![u] + rest) == seq!['\u{fffd}'] + decoded(rest),
{
    let s = seq![u] + rest;
    assert(s[0] == u);
    assert(s.skip(1) =~= rest);
    if s.len() > 1 {
        assert(s[1] == rest[0]);
    }
}

/// A zero ends a text, whatever follows it.
pub proof fn a_zero_ends_a_text(a: Seq<u16>, rest: Seq<u16>)
    requires
        forall|i: int| 0 <= i < a.len() ==> #[trigger] a[i] != 0,
    ensures
        before_zero(a + seq![0u16] + rest) == a,
        before_zero(a) == a,
    decreases a.len(),
{
    let s = a + seq![0u16] + rest;
    if a.len() == 0 {
        assert(s[0] == 0);
        assert(a =~= seq![]);
    } else {
        assert(s[0] == a[0]);
        assert(s.skip(1) =~= a.skip(1) + seq![0u16] + rest);
        let t = a.skip(1);
        assert forall|i: int| 0 <= i < t.len() implies #[trigger] t[i] != 0 by {
            assert(t[i] == a[i + 1]);
        }
        a_zero_ends_a_text(t, rest);
        assert(a =~= seq![a[0]] + t);
    }
}

} // verus!
