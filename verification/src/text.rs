//! Text as sequences of characters: trimming, splitting, joining, searching and replacing.
use vstd::prelude::*;
use vstd::string::*;
use vstd::utf8::*;

verus! {

/// `String::push`: the character is put behind those that the string holds.
pub assume_specification[ String::push ](s: &mut String, ch: char)
    ensures
        final(s)@ == old(s)@.push(ch),
;

/// The Unicode property `White_Space`.
pub open spec fn white(c: char) -> bool {
    ||| '\u{9}' <= c <= '\u{d}'
    ||| c == ' '
    ||| c == '\u{85}'
    ||| c == '\u{a0}'
    ||| c == '\u{1680}'
    ||| '\u{2000}' <= c <= '\u{200a}'
    ||| c == '\u{2028}'
    ||| c == '\u{2029}'
    ||| c == '\u{202f}'
    ||| c == '\u{205f}'
    ||| c == '\u{3000}'
}

/// `s` without its leading white space.
pub open spec fn trimmed_start(s: Seq<char>) -> Seq<char>
    decreases s.len(),
{
    if s.len() > 0 && white(s[0]) {
        trimmed_start(s.skip(1))
    } else {
        s
    }
}

/// `s` without its trailing white space.
pub open spec fn trimmed_end(s: Seq<char>) -> Seq<char>
    decreases s.len(),
{
    if s.len() > 0 && white(s.last()) {
        trimmed_end(s.drop_last())
    } else {
        s
    }
}

/// `s` without white space at either end.
pub open spec fn trimmed(s: Seq<char>) -> Seq<char> {
    trimmed_end(trimmed_start(s))
}

/// The number of characters before the first white space.
pub open spec fn word_len(s: Seq<char>) -> nat
    decreases s.len(),
{
    if s.len() > 0 && !white(s[0]) {
        1 + word_len(s.skip(1))
    } else {
        0
    }
}

/// The maximal runs of characters that are not white space, in order.
pub open spec fn words(s: Seq<char>) -> Seq<Seq<char>>
    decreases s.len(),
{
    if s.len() == 0 {
        seq![]
    } else if white(s[0]) {
        words(s.skip(1))
    } else {
        let n = word_len(s) as int;
        if 0 < n <= s.len() {
            seq![s.take(n)] + words(s.skip(n))
        } else {
            seq![]
        }
    }
}

/// The parts with `sep` between each two neighbours.
pub open spec fn joined(parts: Seq<Seq<char>>, sep: Seq<char>) -> Seq<char>
    decreases parts.len(),
{
    if parts.len() == 0 {
        seq![]
    } else if parts.len() == 1 {
        parts[0]
    } else {
        joined(parts.drop_last(), sep) + sep + parts.last()
    }
}

/// `pat` stands in `s` at index `i`.
pub open spec fn occurs_at(s: Seq<char>, pat: Seq<char>, i: int) -> bool {
    0 <= i && i + pat.len() <= s.len() && s.subrange(i, i + pat.len()) == pat
}

/// `pat` stands somewhere in `s`.
pub open spec fn has(s: Seq<char>, pat: Seq<char>) -> bool {
    exists|i: int| occurs_at(s, pat, i)
}

/// `s` with each occurrence of `pat` replaced by `with`; the occurrences are taken from the
/// left and do not overlap.
pub open spec fn replaced(s: Seq<char>, pat: Seq<char>, with: Seq<char>) -> Seq<char>
    decreases s.len(),
{
    if s.len() == 0 || pat.len() == 0 {
        s
    } else if occurs_at(s, pat, 0) {
        with + replaced(s.skip(pat.len() as int), pat, with)
    } else {
        seq![s[0]] + replaced(s.skip(1), pat, with)
    }
}

/// The lower-case letter of an ASCII capital; any other character is kept.
pub open spec fn ascii_lower(c: char) -> char {
    if 'A' <= c <= 'Z' {
        ((c as u32 + 32) as u32) as char
    } else {
        c
    }
}

/// The strings of a list.
pub open spec fn texts(v: Seq<String>) -> Seq<Seq<char>> {
    v.map_values(|s: String| s@)
}

/// The characters of an optional string.
pub open spec fn opt_text(o: Option<String>) -> Option<Seq<char>> {
    match o {
        Some(s) => Some(s@),
        None => None,
    }
}

/// The characters of an optional string slice.
pub open spec fn opt_str(o: Option<&str>) -> Option<Seq<char>> {
    match o {
        Some(s) => Some(s@),
        None => None,
    }
}

/// The characters of a string.
pub fn chars_of(s: &str) -> (r: Vec<char>)
    ensures
        r@ == s@,
{
    let mut r: Vec<char> = Vec::new();
    for c in it: s.chars()
        invariant
            r@ == it.seq().take(it.index()),
            it.seq() == s@,
    {
        r.push(c);
    }
    r
}

/// The string of the characters from `from` up to but not including `to`.
pub fn string_of(cs: &Vec<char>, from: usize, to: usize) -> (r: String)
    requires
        from <= to <= cs@.len(),
    ensures
        r@ == cs@.subrange(from as int, to as int),
{
    let mut r = String::new();
    let mut i: usize = from;
    while i < to
        invariant
            from <= i <= to <= cs@.len(),
            r@ == cs@.subrange(from as int, i as int),
        decreases to - i,
    {
        r.push(cs[i]);
        i = i + 1;
    }
    r
}

/// A string of its own with the same characters.
pub fn owned(s: &str) -> (r: String)
    ensures
        r@ == s@,
{
    s.to_string()
}

/// Two strings, one behind the other.
pub fn concat2(a: &str, b: &str) -> (r: String)
    ensures
        r@ == a@ + b@,
{
    let mut s = owned(a);
    s.append(b);
    s
}

/// Three strings, one behind the other.
pub fn concat3(a: &str, b: &str, c: &str) -> (r: String)
    ensures
        r@ == a@ + b@ + c@,
{
    let mut s = concat2(a, b);
    s.append(c);
    s
}

/// The two strings hold the same characters.
pub fn same(a: &str, b: &str) -> (r: bool)
    ensures
        r == (a@ == b@),
{
    let x = a.as_bytes();
    let y = b.as_bytes();
    proof {
        encode_utf8_decode_utf8(a@);
        encode_utf8_decode_utf8(b@);
    }
    if x.len() != y.len() {
        return false;
    }
    let n: usize = x.len();
    let mut i: usize = 0;
    while i < n
        invariant
            i <= n,
            n == x@.len(),
            n == y@.len(),
            x@ == encode_utf8(a@),
            y@ == encode_utf8(b@),
            forall|j: int| 0 <= j < i ==> x@[j] == y@[j],
        decreases n - i,
    {
        if x[i] != y[i] {
            return false;
        }
        i = i + 1;
    }
    assert(x@ =~= y@);
    true
}

/// Whether the character is white space.
pub fn is_white(c: char) -> (r: bool)
    ensures
        r == white(c),
{
    ('\u{9}' <= c && c <= '\u{d}') || c == ' ' || c == '\u{85}' || c == '\u{a0}' || c == '\u{1680}'
        || ('\u{2000}' <= c && c <= '\u{200a}') || c == '\u{2028}' || c == '\u{2029}' || c
        == '\u{202f}' || c == '\u{205f}' || c == '\u{3000}'
}

/// `s` without white space at either end.
pub fn trim(s: &str) -> (r: String)
    ensures
        r@ == trimmed(s@),
{
    let cs = chars_of(s);
    let n: usize = cs.len();
    let mut a: usize = 0;
    assert(cs@.skip(0) =~= cs@);
    while a < n && is_white(cs[a])
        invariant
            a <= n,
            n == cs@.len(),
            trimmed_start(cs@.skip(a as int)) == trimmed_start(cs@),
        decreases n - a,
    {
        assert(cs@.skip(a as int).skip(1) =~= cs@.skip(a + 1));
        a = a + 1;
    }
    let mut b: usize = n;
    assert(cs@.subrange(a as int, n as int) =~= cs@.skip(a as int));
    while b > a && is_white(cs[b - 1])
        invariant
            a <= b <= n,
            n == cs@.len(),
            trimmed_end(cs@.subrange(a as int, b as int)) == trimmed_end(cs@.skip(a as int)),
        decreases b,
    {
        assert(cs@.subrange(a as int, b as int).drop_last() =~= cs@.subrange(a as int, b - 1));
        b = b - 1;
    }
    string_of(&cs, a, b)
}

/// The maximal runs of characters that are not white space, in order.
pub fn split_whitespace(s: &str) -> (r: Vec<String>)
    ensures
        texts(r@) == words(s@),
{
    let cs = chars_of(s);
    let n: usize = cs.len();
    let mut r: Vec<String> = Vec::new();
    let mut i: usize = 0;
    assert(cs@.skip(0) =~= cs@);
    assert(texts(r@) + words(cs@) =~= words(cs@));
    while i < n
        invariant
            i <= n,
            n == cs@.len(),
            texts(r@) + words(cs@.skip(i as int)) == words(cs@),
        decreases n - i,
    {
        let ghost rest = cs@.skip(i as int);
        if is_white(cs[i]) {
            assert(rest.skip(1) =~= cs@.skip(i + 1));
            i = i + 1;
        } else {
            let mut e: usize = i;
            while e < n && !is_white(cs[e])
                invariant
                    i <= e <= n,
                    n == cs@.len(),
                    rest == cs@.skip(i as int),
                    word_len(rest) == (e - i) + word_len(cs@.skip(e as int)),
                decreases n - e,
            {
                assert(cs@.skip(e as int).skip(1) =~= cs@.skip(e + 1));
                e = e + 1;
            }
            assert(word_len(rest) == e - i);
            let ghost before = texts(r@);
            let w = string_of(&cs, i, e);
            r.push(w);
            assert(texts(r@) =~= before.push(w@));
            assert(rest.take(e - i) =~= w@);
            assert(rest.skip(e - i) =~= cs@.skip(e as int));
            assert(before + (seq![w@] + words(cs@.skip(e as int))) =~= texts(r@) + words(
                cs@.skip(e as int),
            ));
            i = e;
        }
    }
    assert(texts(r@) + words(cs@.skip(n as int)) =~= texts(r@));
    r
}

/// The parts with `sep` between each two neighbours.
pub fn join(parts: &Vec<String>, sep: &str) -> (r: String)
    ensures
        r@ == joined(texts(parts@), sep@),
{
    let mut r = String::new();
    let ghost all = texts(parts@);
    let mut i: usize = 0;
    assert(all.take(0) =~= seq![]);
    while i < parts.len()
        invariant
            i <= parts@.len(),
            all == texts(parts@),
            r@ == joined(all.take(i as int), sep@),
        decreases parts@.len() - i,
    {
        assert(all.take(i + 1).drop_last() =~= all.take(i as int));
        assert(all.take(i + 1).last() == parts@[i as int]@);
        if i > 0 {
            r.append(sep);
        }
        let ghost base = r@;
        r.append(parts[i].as_str());
        assert(r@ =~= base + parts@[i as int]@);
        proof {
            if i == 0 {
                assert(r@ =~= parts@[0]@);
            }
        }
        i = i + 1;
    }
    assert(all.take(parts@.len() as int) =~= all);
    r
}

/// Whether `pat` stands in `cs` at index `at`.
pub fn is_at(cs: &Vec<char>, pat: &Vec<char>, at: usize) -> (r: bool)
    ensures
        r == occurs_at(cs@, pat@, at as int),
{
    let n: usize = cs.len();
    let m: usize = pat.len();
    if at > n || n - at < m {
        return false;
    }
    let mut k: usize = 0;
    while k < m
        invariant
            k <= m,
            m == pat@.len(),
            n == cs@.len(),
            at + m <= n,
            forall|j: int| 0 <= j < k ==> cs@[at + j] == pat@[j],
        decreases m - k,
    {
        if cs[at + k] != pat[k] {
            assert(cs@.subrange(at as int, at + m)[k as int] != pat@[k as int]);
            return false;
        }
        k = k + 1;
    }
    assert(cs@.subrange(at as int, at + m) =~= pat@);
    true
}

/// Whether `pat` stands somewhere in `s`.
pub fn contains(s: &str, pat: &str) -> (r: bool)
    ensures
        r == has(s@, pat@),
{
    let cs = chars_of(s);
    let ps = chars_of(pat);
    let n: usize = cs.len();
    let mut i: usize = 0;
    while i < n
        invariant
            i <= n,
            n == cs@.len(),
            cs@ == s@,
            ps@ == pat@,
            forall|j: int| 0 <= j < i ==> !occurs_at(cs@, ps@, j),
        decreases n - i,
    {
        if is_at(&cs, &ps, i) {
            return true;
        }
        i = i + 1;
    }
    let last = is_at(&cs, &ps, n);
    proof {
        if has(s@, pat@) {
            let j = choose|j: int| occurs_at(s@, pat@, j);
            assert(j == n);
        }
    }
    last
}

/// `s` with each occurrence of `pat` replaced by `with`.
pub fn replace(s: &str, pat: &str, with: &str) -> (r: String)
    requires
        pat@.len() > 0,
    ensures
        r@ == replaced(s@, pat@, with@),
{
    let cs = chars_of(s);
    let ps = chars_of(pat);
    let n: usize = cs.len();
    let m: usize = ps.len();
    let mut r = String::new();
    let mut i: usize = 0;
    assert(cs@.skip(0) =~= cs@);
    assert(r@ + replaced(cs@, ps@, with@) =~= replaced(cs@, ps@, with@));
    while i < n
        invariant
            i <= n,
            n == cs@.len(),
            m == ps@.len(),
            m > 0,
            r@ + replaced(cs@.skip(i as int), ps@, with@) == replaced(cs@, ps@, with@),
        decreases n - i,
    {
        let ghost rest = cs@.skip(i as int);
        let ghost before = r@;
        if is_at(&cs, &ps, i) {
            assert(rest.subrange(0, m as int) =~= cs@.subrange(i as int, i + m));
            assert(occurs_at(rest, ps@, 0));
            r.append(with);
            assert(rest.skip(m as int) =~= cs@.skip(i + m));
            assert(before + (with@ + replaced(cs@.skip(i + m), ps@, with@)) =~= r@ + replaced(
                cs@.skip(i + m),
                ps@,
                with@,
            ));
            i = i + m;
        } else {
            proof {
                if occurs_at(rest, ps@, 0) {
                    assert(rest.subrange(0, m as int) =~= cs@.subrange(i as int, i + m));
                }
            }
            r.push(cs[i]);
            assert(rest.skip(1) =~= cs@.skip(i + 1));
            assert(before + (seq![rest[0]] + replaced(cs@.skip(i + 1), ps@, with@)) =~= r@
                + replaced(cs@.skip(i + 1), ps@, with@));
            i = i + 1;
        }
    }
    assert(r@ + replaced(cs@.skip(n as int), ps@, with@) =~= r@);
    r
}

/// Whether the two strings are equal up to the case of ASCII letters.
pub fn eq_ignore_ascii_case(a: &str, b: &str) -> (r: bool)
    ensures
        r == (a@.map_values(|c: char| ascii_lower(c)) == b@.map_values(|c: char| ascii_lower(c))),
{
    let x = chars_of(a);
    let y = chars_of(b);
    let ghost la = a@.map_values(|c: char| ascii_lower(c));
    let ghost lb = b@.map_values(|c: char| ascii_lower(c));
    if x.len() != y.len() {
        assert(la.len() != lb.len());
        return false;
    }
    let n: usize = x.len();
    let mut i: usize = 0;
    while i < n
        invariant
            i <= n,
            n == x@.len(),
            n == y@.len(),
            x@ == a@,
            y@ == b@,
            la == a@.map_values(|c: char| ascii_lower(c)),
            lb == b@.map_values(|c: char| ascii_lower(c)),
            forall|j: int| 0 <= j < i ==> ascii_lower(x@[j]) == ascii_lower(y@[j]),
        decreases n - i,
    {
        if to_ascii_lower(x[i]) != to_ascii_lower(y[i]) {
            assert(la[i as int] != lb[i as int]);
            return false;
        }
        i = i + 1;
    }
    assert(la =~= lb);
    true
}

/// The lower-case letter of an ASCII capital; any other character is kept.
pub fn to_ascii_lower(c: char) -> (r: char)
    ensures
        r == ascii_lower(c),
{
    if 'A' <= c && c <= 'Z' {
        let code: u8 = c as u8;
        (code + 32) as char
    } else {
        c
    }
}

/// A row of strings of its own with the same characters.
pub fn copy_all(v: &Vec<String>) -> (r: Vec<String>)
    ensures
        texts(r@) == texts(v@),
{
    let mut r: Vec<String> = Vec::new();
    let mut i: usize = 0;
    while i < v.len()
        invariant
            i <= v@.len(),
            r@.len() == i,
            forall|k: int| 0 <= k < i ==> (#[trigger] r@[k])@ == v@[k]@,
        decreases v@.len() - i,
    {
        r.push(v[i].clone());
        i = i + 1;
    }
    assert(texts(r@) =~= texts(v@));
    r
}

/// Adds a text to a row of strings.
pub fn add_text(row: &mut Vec<String>, s: &str)
    ensures
        texts(final(row)@) == texts(old(row)@).push(s@),
{
    row.push(owned(s));
    assert(texts(row@) =~= texts(old(row)@).push(s@));
}

/// All of `s` is white space.
pub open spec fn blank(s: Seq<char>) -> bool {
    forall|i: int| 0 <= i < s.len() ==> white(#[trigger] s[i])
}

/// `s` neither starts nor ends with white space.
pub open spec fn bare(s: Seq<char>) -> bool {
    s.len() > 0 ==> !white(s[0]) && !white(s[s.len() - 1])
}

proof fn lemma_trimmed_start(p: Seq<char>, rest: Seq<char>)
    requires
        blank(p),
        rest.len() > 0 ==> !white(rest[0]),
    ensures
        trimmed_start(p + rest) == rest,
    decreases p.len(),
{
    let s = p + rest;
    if p.len() == 0 {
        assert(s =~= rest);
    } else {
        assert(s[0] == p[0]);
        assert(s.skip(1) =~= p.skip(1) + rest);
        assert(blank(p.skip(1))) by {
            assert forall|i: int| 0 <= i < p.skip(1).len() implies white(#[trigger] p.skip(1)[i]) by {
                assert(p[i + 1] == p.skip(1)[i]);
            }
        }
        lemma_trimmed_start(p.skip(1), rest);
    }
}

proof fn lemma_trimmed_end(v: Seq<char>, q: Seq<char>)
    requires
        blank(q),
        v.len() > 0 ==> !white(v[v.len() - 1]),
    ensures
        trimmed_end(v + q) == v,
    decreases q.len(),
{
    let s = v + q;
    if q.len() == 0 {
        assert(s =~= v);
    } else {
        assert(s.last() == q[q.len() - 1]);
        assert(s.drop_last() =~= v + q.drop_last());
        assert(blank(q.drop_last())) by {
            assert forall|i: int| 0 <= i < q.drop_last().len() implies white(
                #[trigger] q.drop_last()[i],
            ) by {
                assert(q[i] == q.drop_last()[i]);
            }
        }
        lemma_trimmed_end(v, q.drop_last());
    }
}

/// Trimming takes away the white space before and behind a text, and nothing else: what is left of
/// a text with white space put around it is the text, with all the white space inside it.
pub proof fn trimming_keeps_what_is_inside(p: Seq<char>, v: Seq<char>, q: Seq<char>)
    requires
        blank(p),
        blank(q),
        bare(v),
    ensures
        trimmed(p + v + q) == v,
{
    if v.len() == 0 {
        let s = p + v + q;
        assert(blank(s)) by {
            assert forall|i: int| 0 <= i < s.len() implies white(#[trigger] s[i]) by {
                if i < p.len() {
                    assert(s[i] == p[i]);
                } else {
                    assert(s[i] == q[i - p.len()]);
                }
            }
        }
        assert(s =~= s + v);
        lemma_trimmed_start(s, v);
    } else {
        assert(p + v + q =~= p + (v + q));
        lemma_trimmed_start(p, v + q);
        lemma_trimmed_end(v, q);
    }
}

proof fn lemma_start_split(s: Seq<char>) -> (p: Seq<char>)
    ensures
        blank(p),
        s == p + trimmed_start(s),
        trimmed_start(s).len() > 0 ==> !white(trimmed_start(s)[0]),
    decreases s.len(),
{
    if s.len() > 0 && white(s[0]) {
        let t = lemma_start_split(s.skip(1));
        let p = seq![s[0]] + t;
        assert(blank(p)) by {
            assert forall|i: int| 0 <= i < p.len() implies white(#[trigger] p[i]) by {
                if i > 0 {
                    assert(p[i] == t[i - 1]);
                }
            }
        }
        assert(s =~= seq![s[0]] + s.skip(1));
        assert(s =~= p + trimmed_start(s));
        p
    } else {
        assert(s =~= Seq::<char>::empty() + s);
        Seq::empty()
    }
}

proof fn lemma_end_split(s: Seq<char>) -> (q: Seq<char>)
    ensures
        blank(q),
        s == trimmed_end(s) + q,
        trimmed_end(s).len() > 0 ==> trimmed_end(s)[0] == s[0] && !white(
            trimmed_end(s)[trimmed_end(s).len() - 1],
        ),
    decreases s.len(),
{
    if s.len() > 0 && white(s.last()) {
        let t = lemma_end_split(s.drop_last());
        let q = t.push(s.last());
        assert(blank(q)) by {
            assert forall|i: int| 0 <= i < q.len() implies white(#[trigger] q[i]) by {
                if i < t.len() {
                    assert(q[i] == t[i]);
                }
            }
        }
        assert(s =~= s.drop_last().push(s.last()));
        assert(s =~= trimmed_end(s) + q);
        q
    } else {
        assert(s =~= s + Seq::<char>::empty());
        Seq::empty()
    }
}

/// Every text is its trimmed form with white space before and behind it.
pub proof fn a_text_is_its_trimmed_form_in_white_space(s: Seq<char>) -> (ends: (
    Seq<char>,
    Seq<char>,
))
    ensures
        blank(ends.0),
        blank(ends.1),
        s == ends.0 + trimmed(s) + ends.1,
        bare(trimmed(s)),
{
    let p = lemma_start_split(s);
    let q = lemma_end_split(trimmed_start(s));
    assert(s =~= p + trimmed(s) + q);
    (p, q)
}

/// The trimmed form of a text is empty exactly if the text is all white space.
pub proof fn only_blank_texts_are_trimmed_away(s: Seq<char>)
    ensures
        trimmed(s).len() == 0 <==> blank(s),
{
    let (p, q) = a_text_is_its_trimmed_form_in_white_space(s);
    if trimmed(s).len() == 0 {
        assert forall|i: int| 0 <= i < s.len() implies white(#[trigger] s[i]) by {
            if i < p.len() {
                assert(s[i] == p[i]);
            } else {
                assert(s[i] == q[i - p.len()]);
            }
        }
    } else {
        assert(s[p.len() as int] == trimmed(s)[0]);
    }
}

/// Among the characters of ASCII, the space, the tabulators, the two ends of a line and the end of
/// a page are white space; no letter, digit or sign is, nor is a Vietnamese letter.
pub proof fn white_space_is_no_letter(c: char)
    ensures
        (c as u32) < 0x85 ==> (white(c) <==> c == ' ' || 9 <= c as u32 <= 13),
        0xa1 <= c as u32 <= 0x167f ==> !white(c),
        0x1681 <= c as u32 <= 0x1fff ==> !white(c),
        0x3001 <= c as u32 ==> !white(c),
{
}

/// A word goes on up to the first white space.
pub proof fn lemma_word_len_of(w: Seq<char>, rest: Seq<char>)
    requires
        forall|k: int| 0 <= k < w.len() ==> !white(#[trigger] w[k]),
        rest.len() == 0 || white(rest[0]),
    ensures
        word_len(w + rest) == w.len(),
    decreases w.len(),
{
    let s = w + rest;
    if w.len() == 0 {
        assert(s =~= rest);
    } else {
        assert(s[0] == w[0]);
        assert(s.skip(1) =~= w.skip(1) + rest);
        lemma_word_len_of(w.skip(1), rest);
    }
}

/// White space before a text adds no word, and a text of white space only has none.
pub proof fn white_space_is_no_word(p: Seq<char>, s: Seq<char>)
    requires
        blank(p),
    ensures
        words(p + s) == words(s),
        words(p).len() == 0,
    decreases p.len(),
{
    if p.len() == 0 {
        assert(p + s =~= s);
    } else {
        let t = p.skip(1);
        assert((p + s)[0] == p[0]);
        assert((p + s).skip(1) =~= t + s);
        assert(blank(t)) by {
            assert forall|i: int| 0 <= i < t.len() implies white(#[trigger] t[i]) by {
                assert(p[i + 1] == t[i]);
            }
        }
        white_space_is_no_word(t, s);
    }
}

/// The words of a text that starts with a word are that word and the words behind it.
pub proof fn words_come_one_by_one(w: Seq<char>, rest: Seq<char>)
    requires
        w.len() > 0,
        forall|k: int| 0 <= k < w.len() ==> !white(#[trigger] w[k]),
        rest.len() == 0 || white(rest[0]),
    ensures
        words(w + rest) == seq![w] + words(rest),
{
    let s = w + rest;
    lemma_word_len_of(w, rest);
    assert(s[0] == w[0]);
    assert(s.take(w.len() as int) =~= w);
    assert(s.skip(w.len() as int) =~= rest);
}

/// Joining two rows of parts is joining each and putting the separator between them; a single part
/// is kept as it is.
pub proof fn joining_goes_part_by_part(a: Seq<Seq<char>>, b: Seq<Seq<char>>, sep: Seq<char>)
    ensures
        a.len() > 0 && b.len() > 0 ==> joined(a + b, sep) == joined(a, sep) + sep + joined(b, sep),
        a.len() == 0 ==> joined(a, sep).len() == 0,
        a.len() == 1 ==> joined(a, sep) == a[0],
    decreases b.len(),
{
    if a.len() > 0 && b.len() > 0 {
        let ab = a + b;
        assert(ab.last() == b.last());
        assert(ab.drop_last() =~= a + b.drop_last());
        if b.len() == 1 {
            assert(ab.drop_last() =~= a);
            assert(joined(b, sep) == b.last());
        } else {
            joining_goes_part_by_part(a, b.drop_last(), sep);
            assert(joined(ab, sep) =~= joined(a, sep) + sep + joined(b, sep));
        }
    }
}

/// A text in which a pattern does not stand is not changed by replacing the pattern.
pub proof fn without_the_pattern_nothing_is_replaced(
    s: Seq<char>,
    pat: Seq<char>,
    with: Seq<char>,
)
    requires
        forall|i: int| !occurs_at(s, pat, i),
    ensures
        replaced(s, pat, with) == s,
    decreases s.len(),
{
    if s.len() > 0 && pat.len() > 0 {
        let t = s.skip(1);
        assert(!occurs_at(s, pat, 0));
        assert forall|i: int| !occurs_at(t, pat, i) by {
            if occurs_at(t, pat, i) {
                assert(s.subrange(i + 1, i + 1 + pat.len()) =~= t.subrange(i, i + pat.len()));
                assert(occurs_at(s, pat, i + 1));
            }
        }
        without_the_pattern_nothing_is_replaced(t, pat, with);
        assert(replaced(s, pat, with) =~= s);
    }
}

/// Replacing a pattern keeps what stands before its first occurrence, puts the new text in the
/// place of that occurrence, and goes on behind it.
pub proof fn the_first_occurrence_is_replaced(
    p: Seq<char>,
    pat: Seq<char>,
    q: Seq<char>,
    with: Seq<char>,
)
    requires
        pat.len() > 0,
        forall|i: int| 0 <= i < p.len() ==> !occurs_at(p + pat + q, pat, i),
    ensures
        replaced(p + pat + q, pat, with) == p + with + replaced(q, pat, with),
    decreases p.len(),
{
    let s = p + pat + q;
    if p.len() == 0 {
        assert(s.subrange(0, pat.len() as int) =~= pat);
        assert(s.skip(pat.len() as int) =~= q);
        assert(replaced(s, pat, with) =~= p + with + replaced(q, pat, with));
    } else {
        let t = p.skip(1);
        let u = t + pat + q;
        assert(s.skip(1) =~= u);
        assert forall|i: int| 0 <= i < t.len() implies !occurs_at(u, pat, i) by {
            if occurs_at(u, pat, i) {
                assert(s.subrange(i + 1, i + 1 + pat.len()) =~= u.subrange(i, i + pat.len()));
                assert(occurs_at(s, pat, i + 1));
            }
        }
        the_first_occurrence_is_replaced(t, pat, q, with);
        assert(!occurs_at(s, pat, 0));
        assert(s[0] == p[0]);
        assert(replaced(s, pat, with) =~= p + with + replaced(q, pat, with));
    }
}

/// The capitals of ASCII have their small letters, and every other character is kept.
pub proof fn capitals_have_their_small_letters(c: char)
    ensures
        0x41 <= c as u32 <= 0x5a ==> ascii_lower(c) as u32 == c as u32 + 32,
        !(0x41 <= c as u32 <= 0x5a) ==> ascii_lower(c) == c,
{
}

} // verus!
