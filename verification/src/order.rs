//! The order of strings: that of the bytes of their UTF-8 encodings.
use vstd::prelude::*;
use vstd::string::*;
use vstd::utf8::*;

verus! {

/// `a` comes before `b` in the lexicographic order of byte sequences.
pub open spec fn bytes_less(a: Seq<u8>, b: Seq<u8>) -> bool
    decreases a.len(),
{
    if b.len() == 0 {
        false
    } else if a.len() == 0 {
        true
    } else if a[0] != b[0] {
        a[0] < b[0]
    } else {
        bytes_less(a.skip(1), b.skip(1))
    }
}

/// `a` comes before `b`.
pub open spec fn less(a: Seq<char>, b: Seq<char>) -> bool {
    bytes_less(encode_utf8(a), encode_utf8(b))
}

/// Whether `a` comes before `b`.
pub fn is_less(a: &str, b: &str) -> (r: bool)
    ensures
        r == less(a@, b@),
{
    let x = a.as_bytes();
    let y = b.as_bytes();
    let n: usize = x.len();
    let m: usize = y.len();
    let mut i: usize = 0;
    assert(x@.skip(0) =~= x@);
    assert(y@.skip(0) =~= y@);
    while i < n && i < m
        invariant
            i <= n,
            i <= m,
            n == x@.len(),
            m == y@.len(),
            x@ == encode_utf8(a@),
            y@ == encode_utf8(b@),
            bytes_less(x@.skip(i as int), y@.skip(i as int)) == bytes_less(x@, y@),
        decreases n - i,
    {
        if x[i] != y[i] {
            return x[i] < y[i];
        }
        assert(x@.skip(i as int).skip(1) =~= x@.skip(i + 1));
        assert(y@.skip(i as int).skip(1) =~= y@.skip(i + 1));
        i = i + 1;
    }
    i < m
}

proof fn lemma_bytes_irreflexive(a: Seq<u8>)
    ensures
        !bytes_less(a, a),
    decreases a.len(),
{
    if a.len() > 0 {
        lemma_bytes_irreflexive(a.skip(1));
    }
}

proof fn lemma_bytes_transitive(a: Seq<u8>, b: Seq<u8>, c: Seq<u8>)
    requires
        bytes_less(a, b),
        bytes_less(b, c),
    ensures
        bytes_less(a, c),
    decreases a.len(),
{
    if a.len() > 0 && b.len() > 0 && c.len() > 0 && a[0] == b[0] && b[0] == c[0] {
        lemma_bytes_transitive(a.skip(1), b.skip(1), c.skip(1));
    }
}

proof fn lemma_bytes_total(a: Seq<u8>, b: Seq<u8>)
    ensures
        bytes_less(a, b) || bytes_less(b, a) || a == b,
    decreases a.len(),
{
    if a.len() > 0 && b.len() > 0 && a[0] == b[0] {
        lemma_bytes_total(a.skip(1), b.skip(1));
        if a.skip(1) == b.skip(1) {
            assert(a =~= seq![a[0]] + a.skip(1));
            assert(b =~= seq![b[0]] + b.skip(1));
        }
    } else if a.len() == 0 && b.len() == 0 {
        assert(a =~= b);
    }
}

/// No string comes before itself.
pub proof fn less_irreflexive(a: Seq<char>)
    ensures
        !less(a, a),
{
    lemma_bytes_irreflexive(encode_utf8(a));
}

/// The order is transitive.
pub proof fn less_transitive(a: Seq<char>, b: Seq<char>, c: Seq<char>)
    requires
        less(a, b),
        less(b, c),
    ensures
        less(a, c),
{
    lemma_bytes_transitive(encode_utf8(a), encode_utf8(b), encode_utf8(c));
}

/// Of two different strings one comes before the other.
pub proof fn less_total(a: Seq<char>, b: Seq<char>)
    ensures
        less(a, b) || less(b, a) || a == b,
{
    lemma_bytes_total(encode_utf8(a), encode_utf8(b));
    encode_utf8_decode_utf8(a);
    encode_utf8_decode_utf8(b);
}

proof fn lemma_same_start(p: Seq<u8>, a: Seq<u8>, b: Seq<u8>)
    ensures
        bytes_less(p + a, p + b) == bytes_less(a, b),
    decreases p.len(),
{
    if p.len() == 0 {
        assert(p + a =~= a);
        assert(p + b =~= b);
    } else {
        assert((p + a).skip(1) =~= p.skip(1) + a);
        assert((p + b).skip(1) =~= p.skip(1) + b);
        assert((p + a)[0] == p[0] && (p + b)[0] == p[0]);
        lemma_same_start(p.skip(1), a, b);
    }
}

/// The first byte in which two rows differ decides which comes before the other, and a row comes
/// before every longer one that starts with it.
pub proof fn the_first_difference_decides(p: Seq<u8>, x: u8, a: Seq<u8>, y: u8, b: Seq<u8>)
    requires
        x < y,
    ensures
        bytes_less(p + (seq![x] + a), p + (seq![y] + b)),
        !bytes_less(p + (seq![y] + b), p + (seq![x] + a)),
        bytes_less(p, p + (seq![x] + a)),
        !bytes_less(p + (seq![x] + a), p),
{
    let u = seq![x] + a;
    let v = seq![y] + b;
    let none = Seq::<u8>::empty();
    lemma_same_start(p, u, v);
    lemma_same_start(p, v, u);
    lemma_same_start(p, none, u);
    lemma_same_start(p, u, none);
    assert(p + none =~= p);
    assert(u[0] == x && v[0] == y);
}

/// Texts are ordered by the bytes of their encodings.
pub proof fn texts_are_ordered_by_their_bytes(a: Seq<char>, b: Seq<char>)
    ensures
        less(a, b) == bytes_less(encode_utf8(a), encode_utf8(b)),
{
}

} // verus!
