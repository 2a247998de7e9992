//! Unsigned numbers in decimal notation.
use crate::text;
use vstd::prelude::*;
use vstd::string::*;

verus! {

/// The character is one of `0` to `9`.
pub open spec fn digit(c: char) -> bool {
    '0' <= c <= '9'
}

/// The value of a digit.
pub open spec fn digit_value(c: char) -> nat {
    (c as nat - '0' as nat) as nat
}

/// The digit of a value below ten.
pub open spec fn digit_char(d: nat) -> char {
    ((d + '0' as nat) as u8) as char
}

/// All characters are digits.
pub open spec fn all_digits(s: Seq<char>) -> bool {
    forall|i: int| 0 <= i < s.len() ==> digit(#[trigger] s[i])
}

/// The number that a row of digits denotes.
pub open spec fn value_of(s: Seq<char>) -> nat
    decreases s.len(),
{
    if s.len() == 0 {
        0
    } else {
        value_of(s.drop_last()) * 10 + digit_value(s.last())
    }
}

/// The shortest row of digits that denotes `n`.
pub open spec fn digits_of(n: nat) -> Seq<char>
    decreases n,
{
    if n < 10 {
        seq![digit_char(n)]
    } else {
        digits_of(n / 10).push(digit_char(n % 10))
    }
}

/// What stands behind an optional leading `+`.
pub open spec fn unsigned_part(s: Seq<char>) -> Seq<char> {
    if s.len() > 0 && s[0] == '+' {
        s.skip(1)
    } else {
        s
    }
}

/// The number that `s` denotes: an optional `+`, then one or more digits and nothing else,
/// with a value of at most `max`.
pub open spec fn parsed(s: Seq<char>, max: nat) -> Option<nat> {
    let body = unsigned_part(s);
    if body.len() > 0 && all_digits(body) && value_of(body) <= max {
        Some(value_of(body))
    } else {
        None
    }
}

proof fn lemma_value_grows(s: Seq<char>, k: int)
    requires
        0 <= k <= s.len(),
    ensures
        value_of(s.take(k)) <= value_of(s),
    decreases s.len() - k,
{
    if k < s.len() {
        assert(s.take(k + 1).drop_last() =~= s.take(k));
        lemma_value_grows(s, k + 1);
    } else {
        assert(s.take(k) =~= s);
    }
}

/// The number that `s` denotes, if it denotes one of at most `max`.
pub fn parse(s: &str, max: u64) -> (r: Option<u64>)
    ensures
        match r {
            Some(v) => parsed(s@, max as nat) == Some(v as nat),
            None => parsed(s@, max as nat) is None,
        },
{
    let cs = text::chars_of(s);
    let n: usize = cs.len();
    let start: usize = if n > 0 && cs[0] == '+' {
        1
    } else {
        0
    };
    let ghost body = unsigned_part(s@);
    assert(body =~= cs@.skip(start as int));
    if start == n {
        return None;
    }
    let mut v: u64 = 0;
    let mut i: usize = start;
    assert(body.take(0) =~= seq![]);
    while i < n
        invariant
            start <= i <= n,
            n == cs@.len(),
            body == cs@.skip(start as int),
            body == unsigned_part(s@),
            all_digits(body.take(i - start)),
            v == value_of(body.take(i - start)),
            v <= max,
        decreases n - i,
    {
        let c: char = cs[i];
        let ghost k = i - start;
        assert(body[k] == c);
        if !('0' <= c && c <= '9') {
            assert(!digit(body[k]));
            return None;
        }
        let d: u64 = (c as u8 - '0' as u8) as u64;
        assert(d == digit_value(c));
        assert(body.take(k + 1).drop_last() =~= body.take(k));
        assert(body.take(k + 1).last() == c);
        assert(value_of(body.take(k + 1)) == v * 10 + d);
        proof {
            lemma_value_grows(body, k + 1);
        }
        if v > max / 10 || max - v * 10 < d {
            assert(v * 10 + d > max) by (nonlinear_arith)
                requires
                    v > max / 10 || max - v * 10 < d,
            ;
            return None;
        }
        v = v * 10 + d;
        assert(all_digits(body.take(k + 1))) by {
            assert forall|j: int| 0 <= j < k + 1 implies digit(#[trigger] body.take(k + 1)[j]) by {
                if j < k {
                    assert(body.take(k)[j] == body.take(k + 1)[j]);
                }
            }
        }
        i = i + 1;
    }
    assert(body.take(n - start) =~= body);
    Some(v)
}

/// The decimal notation of `n`.
pub fn render(n: u64) -> (r: String)
    ensures
        r@ == digits_of(n as nat),
    decreases n,
{
    let d: u8 = (n % 10) as u8;
    let mut r = if n < 10 {
        String::new()
    } else {
        render(n / 10)
    };
    r.push((d + 48) as char);
    if n < 10 {
        assert(r@ =~= seq![digit_char(n as nat)]);
    }
    r
}

/// The notation of a number is one or more digits that denote the number.
pub proof fn lemma_digits(n: nat)
    ensures
        digits_of(n).len() > 0,
        all_digits(digits_of(n)),
        value_of(digits_of(n)) == n,
    decreases n,
{
    if n >= 10 {
        lemma_digits(n / 10);
        assert(digits_of(n).drop_last() =~= digits_of(n / 10));
    } else {
        assert(digits_of(n).drop_last() =~= seq![]);
        reveal_with_fuel(value_of, 2);
    }
}

/// Reading the notation of a number gives the number back.
pub proof fn parse_undoes_render(n: nat, max: nat)
    requires
        n <= max,
    ensures
        parsed(digits_of(n), max) == Some(n),
{
    lemma_digits(n);
    assert(digit(digits_of(n)[0]));
    assert(unsigned_part(digits_of(n)) == digits_of(n));
}

/// A whole number in decimal notation, with a minus sign if it is negative.
pub open spec fn signed_digits(v: int) -> Seq<char> {
    if v < 0 {
        "-"@ + digits_of((-v) as nat)
    } else {
        digits_of(v as nat)
    }
}

/// A whole number in decimal notation.
pub fn render_signed(v: i32) -> (r: String)
    ensures
        r@ == signed_digits(v as int),
{
    let wide: i64 = v as i64;
    if wide < 0 {
        text::concat2("-", render((-wide) as u64).as_str())
    } else {
        render(wide as u64)
    }
}

/// Digits are read in the scale of ten, and no digits are zero.
pub proof fn digits_are_read_in_the_scale_of_ten(s: Seq<char>, c: char)
    requires
        0x30 <= c as u32 <= 0x39,
    ensures
        value_of(s.push(c)) == 10 * value_of(s) + (c as u32 - 0x30),
        value_of(seq![]) == 0,
{
    assert(s.push(c).drop_last() =~= s);
}

/// A row of one or more digits is read as its value, with a plus before it or without, if the value
/// is not above the limit.
pub proof fn a_row_of_digits_is_a_number(s: Seq<char>, max: nat)
    requires
        s.len() > 0,
        forall|i: int| 0 <= i < s.len() ==> '0' <= #[trigger] s[i] <= '9',
    ensures
        value_of(s) <= max ==> parsed(s, max) == Some(value_of(s)) && parsed(seq!['+'] + s, max)
            == Some(value_of(s)),
        value_of(s) > max ==> parsed(s, max) is None && parsed(seq!['+'] + s, max) is None,
{
    assert(all_digits(s)) by {
        assert forall|i: int| 0 <= i < s.len() implies digit(#[trigger] s[i]) by {}
    }
    assert(digit(s[0]));
    let t = seq!['+'] + s;
    assert(t[0] == '+');
    assert(t.skip(1) =~= s);
}

/// No other text is a number: the empty one, one with anything but digits behind its first
/// character, and one that starts with neither a digit nor a plus.
pub proof fn other_texts_are_no_numbers(s: Seq<char>, max: nat)
    requires
        s.len() == 0 || s == seq!['+'] || (s[0] != '+' && !('0' <= s[0] <= '9')) || exists|i: int|
            1 <= i < s.len() && !('0' <= #[trigger] s[i] <= '9'),
    ensures
        parsed(s, max) is None,
{
    let body = unsigned_part(s);
    if s.len() == 0 || s == seq!['+'] {
    } else if s[0] != '+' && !('0' <= s[0] <= '9') {
        assert(!digit(body[0]));
    } else {
        let i = choose|i: int| 1 <= i < s.len() && !('0' <= #[trigger] s[i] <= '9');
        if s[0] == '+' {
            assert(body[i - 1] == s[i]);
            assert(!digit(body[i - 1]));
        } else {
            assert(body[i] == s[i]);
            assert(!digit(body[i]));
        }
    }
}

proof fn lemma_not_zero(s: Seq<char>)
    requires
        all_digits(s),
        s.len() > 0,
        s[0] != '0',
    ensures
        value_of(s) > 0,
    decreases s.len(),
{
    assert(digit(s[0]));
    if s.len() > 1 {
        let t = s.drop_last();
        assert(all_digits(t)) by {
            assert forall|i: int| 0 <= i < t.len() implies digit(#[trigger] t[i]) by {
                assert(t[i] == s[i]);
            }
        }
        lemma_not_zero(t);
    } else {
        assert(s.last() == s[0]);
    }
}

proof fn lemma_digit_back(c: char)
    requires
        digit(c),
    ensures
        digit_value(c) < 10,
        digit_char(digit_value(c)) == c,
{
}

/// Every number has one notation: the row of digits without a needless zero before it.
pub proof fn a_number_has_one_notation(s: Seq<char>)
    requires
        all_digits(s),
        s.len() == 1 || (s.len() > 1 && s[0] != '0'),
    ensures
        digits_of(value_of(s)) == s,
    decreases s.len(),
{
    let t = s.drop_last();
    let c = s[s.len() - 1];
    assert(digit(c));
    lemma_digit_back(c);
    let d = digit_value(c);
    if s.len() == 1 {
        assert(t =~= seq![]);
        assert(value_of(t) == 0);
        assert(value_of(s) == d);
        assert(digits_of(d) =~= s);
    } else {
        assert(all_digits(t)) by {
            assert forall|i: int| 0 <= i < t.len() implies digit(#[trigger] t[i]) by {
                assert(t[i] == s[i]);
            }
        }
        assert(t[0] == s[0]);
        lemma_not_zero(t);
        a_number_has_one_notation(t);
        let v = value_of(t);
        assert(value_of(s) == v * 10 + d);
        assert((v * 10 + d) / 10 == v && (v * 10 + d) % 10 == d);
        assert(digits_of(value_of(s)) =~= s);
    }
}

/// A negative number is written as a minus and the number without it.
pub proof fn a_negative_number_has_a_minus(n: nat)
    requires
        n > 0,
    ensures
        signed_digits(-n) == seq!['-'] + digits_of(n),
        signed_digits(n as int) == digits_of(n),
{
    reveal_strlit("-");
    assert("-"@ =~= seq!['-']);
}

} // verus!
