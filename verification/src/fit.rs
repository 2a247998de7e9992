//! Which values of a longer or shorter row make up each of the 128 places of an embedding.
use crate::voice::EMBEDDING_LEN;
use vstd::arithmetic::div_mod::*;
use vstd::prelude::*;

verus! {

/// The distance of the single-precision numbers around a whole number: of a number with more than
/// 24 binary digits only the first 24 are kept.
pub open spec fn spacing(n: nat) -> nat
    decreases n,
{
    if n < 0x100_0000 {
        1
    } else {
        2 * spacing(n / 2)
    }
}

/// The single-precision number nearest to a whole number; of two as near, the one with an even
/// last digit.
pub open spec fn nearest(n: nat) -> nat {
    let unit = spacing(n);
    let low = n / unit;
    let rest = n % unit;
    if 2 * rest < unit || (2 * rest == unit && low % 2 == 0) {
        low * unit
    } else {
        (low + 1) * unit
    }
}

/// What a place of an embedding is made from.
#[derive(Clone, Copy, Debug, PartialEq, Eq, Structural)]
pub enum Window {
    /// The value at this index.
    Copy(usize),
    /// The mean of the values from the first index on, up to and without the second.
    Mean(usize, usize),
}

/// How a row of values becomes an embedding.
pub enum FitPlan {
    /// All places are zeros.
    Zeros,
    /// The row is kept as it is.
    Keep,
    /// Each place has its window in the row.
    Windows(Vec<Window>),
}

/// The first index of window `i` of a row of `len` values, in single precision.
pub open spec fn window_start(i: nat, len: nat) -> nat {
    nearest(i * nearest(len)) / EMBEDDING_LEN as nat
}

/// The index behind window `i` of a row of `len` values.
pub open spec fn window_end(i: nat, len: nat) -> nat {
    let up = (nearest((i + 1) * nearest(len)) + EMBEDDING_LEN - 1) as nat / EMBEDDING_LEN as nat;
    if up < len {
        up
    } else {
        len
    }
}

/// Window `i` of a row of `len` values.
pub open spec fn window_at(i: nat, len: nat) -> Window {
    let start = window_start(i, len);
    let end = window_end(i, len);
    if end <= start {
        Window::Copy(
            if start < len {
                start as usize
            } else {
                (len - 1) as usize
            },
        )
    } else {
        Window::Mean(start as usize, end as usize)
    }
}

/// The window lies within a row of `len` values and holds at least one.
pub open spec fn within(w: Window, len: nat) -> bool {
    match w {
        Window::Copy(i) => i < len,
        Window::Mean(start, end) => start < end <= len,
    }
}

proof fn lemma_spacing(n: nat)
    ensures
        1 <= spacing(n) <= n + 1,
        n >= 0x80_0000 ==> spacing(n) <= n,
    decreases n,
{
    if n >= 0x100_0000 {
        lemma_spacing(n / 2);
    }
}

proof fn lemma_nearest_bound(n: nat)
    ensures
        nearest(n) <= 2 * n + 1,
        n < 0x100_0000 ==> nearest(n) == n,
{
    lemma_spacing(n);
    let unit = spacing(n);
    let low = n / unit;
    lemma_fundamental_div_mod(n as int, unit as int);
    assert(unit * low == low * unit) by (nonlinear_arith);
    assert((low + 1) * unit == low * unit + unit) by (nonlinear_arith);
}

/// The single-precision number nearest to a whole number.
fn nearest_of(n: u128) -> (r: u128)
    requires
        n <= 0xffff_ffff_ffff_ffff_ffff_ffff,
    ensures
        r == nearest(n as nat),
        r <= 2 * n + 1,
{
    let mut unit: u128 = 1;
    let mut left: u128 = n;
    while left >= 0x100_0000
        invariant
            spacing(n as nat) == unit * spacing(left as nat),
            1 <= unit,
            unit * left <= n,
            n <= 0xffff_ffff_ffff_ffff_ffff_ffff,
        decreases left,
    {
        assert(unit * 2 * spacing((left / 2) as nat) == unit * (2 * spacing((left / 2) as nat)))
            by (nonlinear_arith);
        assert(unit * 2 * (left / 2) <= unit * left) by (nonlinear_arith)
            requires
                2 * (left / 2) <= left,
        ;
        assert(unit * 1 <= unit * left) by (nonlinear_arith)
            requires
                1 <= left,
        ;
        unit = unit * 2;
        left = left / 2;
    }
    assert(unit * 1 == unit);
    proof {
        lemma_nearest_bound(n as nat);
        lemma_spacing(n as nat);
        lemma_fundamental_div_mod(n as int, unit as int);
        assert(unit * (n / unit) == (n / unit) * unit) by (nonlinear_arith);
        assert(((n / unit) + 1) * unit == (n / unit) * unit + unit) by (nonlinear_arith);
    }
    let low: u128 = n / unit;
    let rest: u128 = n % unit;
    if 2 * rest < unit || (2 * rest == unit && low % 2 == 0) {
        low * unit
    } else {
        (low + 1) * unit
    }
}

/// Window `i` of a row of `len` values.
fn window_of(i: usize, len: usize) -> (r: Window)
    requires
        i < EMBEDDING_LEN,
        len > 0,
    ensures
        r == window_at(i as nat, len as nat),
        within(r, len as nat),
{
    let scale: u128 = nearest_of(len as u128);
    assert(i * scale <= 128 * scale) by (nonlinear_arith)
        requires
            i < 128,
            scale >= 0,
    ;
    assert((i + 1) * scale <= 128 * scale) by (nonlinear_arith)
        requires
            i < 128,
            scale >= 0,
    ;
    let start: u128 = nearest_of(i as u128 * scale) / EMBEDDING_LEN as u128;
    let up: u128 = (nearest_of((i as u128 + 1) * scale) + EMBEDDING_LEN as u128 - 1)
        / EMBEDDING_LEN as u128;
    let end: u128 = if up < len as u128 {
        up
    } else {
        len as u128
    };
    if end <= start {
        let at: u128 = if start < len as u128 {
            start
        } else {
            len as u128 - 1
        };
        Window::Copy(at as usize)
    } else {
        Window::Mean(start as usize, end as usize)
    }
}

/// How a row of `len` values becomes an embedding.
pub fn fit_plan(len: usize) -> (r: FitPlan)
    ensures
        match r {
            FitPlan::Zeros => len == 0,
            FitPlan::Keep => len == EMBEDDING_LEN,
            FitPlan::Windows(w) => {
                &&& len != 0 && len != EMBEDDING_LEN
                &&& w@ == Seq::new(EMBEDDING_LEN as nat, |i: int| window_at(i as nat, len as nat))
                &&& forall|i: int| 0 <= i < w@.len() ==> within(#[trigger] w@[i], len as nat)
            },
        },
{
    if len == 0 {
        return FitPlan::Zeros;
    }
    if len == EMBEDDING_LEN {
        return FitPlan::Keep;
    }
    let mut w: Vec<Window> = Vec::new();
    let mut i: usize = 0;
    while i < EMBEDDING_LEN
        invariant
            i <= EMBEDDING_LEN,
            len > 0,
            w@ == Seq::new(i as nat, |k: int| window_at(k as nat, len as nat)),
            forall|k: int| 0 <= k < w@.len() ==> within(#[trigger] w@[k], len as nat),
        decreases EMBEDDING_LEN - i,
    {
        w.push(window_of(i, len));
        i = i + 1;
        assert(w@ =~= Seq::new(i as nat, |k: int| window_at(k as nat, len as nat)));
    }
    FitPlan::Windows(w)
}

/// While the row is short enough for single precision to be exact, every value of it falls into a
/// window.
pub proof fn windows_cover(len: nat, p: nat) -> (i: nat)
    requires
        0 < len <= 0x2_0000,
        len <= usize::MAX,
        p < len,
    ensures
        i < EMBEDDING_LEN,
        window_at(i, len) matches Window::Mean(start, end) && start <= p < end,
{
    let i = (p * 128) / len;
    lemma_fundamental_div_mod((p * 128) as int, len as int);
    assert(i < 128) by (nonlinear_arith)
        requires
            len * i <= p * 128,
            p < len,
            len > 0,
    ;
    assert(i * len == len * i) by (nonlinear_arith);
    assert((i + 1) * len == len * i + len) by (nonlinear_arith);
    assert(i * len <= 127 * len && 127 * len < 0x100_0000) by (nonlinear_arith)
        requires
            i <= 127,
            0 < len <= 0x2_0000,
    ;
    lemma_nearest_bound(len);
    lemma_nearest_bound(i * len);
    if (i + 1) * len < 0x100_0000 {
        lemma_nearest_bound((i + 1) * len);
    } else {
        assert((i + 1) * len <= 128 * len) by (nonlinear_arith)
            requires
                i + 1 <= 128,
                len > 0,
        ;
        assert((i + 1) * len == 0x100_0000);
        assert(nearest(0x100_0000) == 0x100_0000) by {
            assert(spacing(0x80_0000) == 1);
            assert(spacing(0x100_0000) == 2);
        }
    }
    i
}

/// The number of values in each window of the plain mean of a row of `len` values.
pub open spec fn frame_len(len: nat) -> nat {
    if len / EMBEDDING_LEN as nat == 0 {
        1
    } else {
        len / EMBEDDING_LEN as nat
    }
}

/// Frame `i` of a row of `len` values; there is none behind the end of the row.
pub open spec fn frame_at(i: nat, len: nat) -> Option<(usize, usize)> {
    let start = i * frame_len(len);
    let end = if (i + 1) * frame_len(len) < len {
        (i + 1) * frame_len(len)
    } else {
        len
    };
    if start >= end {
        None
    } else {
        Some((start as usize, end as usize))
    }
}

/// The frames of a row of `len` values, from a first index on, up to and without a second.
pub fn frames(len: usize) -> (r: Vec<Option<(usize, usize)>>)
    ensures
        r@ == Seq::new(EMBEDDING_LEN as nat, |i: int| frame_at(i as nat, len as nat)),
        forall|i: int|
            0 <= i < r@.len() ==> (#[trigger] r@[i] matches Some((a, b)) ==> a < b <= len),
{
    let frame: usize = if len / EMBEDDING_LEN == 0 {
        1
    } else {
        len / EMBEDDING_LEN
    };
    let mut r: Vec<Option<(usize, usize)>> = Vec::new();
    let mut i: usize = 0;
    while i < EMBEDDING_LEN
        invariant
            i <= EMBEDDING_LEN,
            frame == frame_len(len as nat),
            128 * frame <= len || frame == 1,
            r@ == Seq::new(i as nat, |k: int| frame_at(k as nat, len as nat)),
            forall|k: int|
                0 <= k < r@.len() ==> (#[trigger] r@[k] matches Some((a, b)) ==> a < b <= len),
        decreases EMBEDDING_LEN - i,
    {
        assert(i * frame <= 128 * frame && (i + 1) * frame <= 128 * frame) by (nonlinear_arith)
            requires
                i < 128,
                frame >= 0,
        ;
        let start: usize = i * frame;
        let behind: usize = (i + 1) * frame;
        let end: usize = if behind < len {
            behind
        } else {
            len
        };
        if start >= end {
            r.push(None);
        } else {
            r.push(Some((start, end)));
        }
        i = i + 1;
        assert(r@ =~= Seq::new(i as nat, |k: int| frame_at(k as nat, len as nat)));
    }
    r
}

/// The frames of a row of at least 128 values follow one another without a gap from its start on,
/// each as long as the row divided by 128, without the rest. Those of a shorter row hold one value
/// each, as far as the row goes.
pub proof fn frames_follow_one_another(i: nat, len: nat)
    requires
        i < 128,
        len <= usize::MAX,
    ensures
        len >= 128 ==> frame_at(i, len) == Some(
            ((i * (len / 128)) as usize, ((i + 1) * (len / 128)) as usize),
        ),
        len < 128 && i < len ==> frame_at(i, len) == Some((i as usize, (i + 1) as usize)),
        len < 128 && i >= len ==> frame_at(i, len) is None,
{
    let f = len / 128;
    if len >= 128 {
        assert(f >= 1);
        assert((i + 1) * f <= 128 * f) by (nonlinear_arith)
            requires
                i < 128,
                f >= 1,
        ;
        assert(128 * f <= len);
        assert(i * f < (i + 1) * f) by (nonlinear_arith)
            requires
                f >= 1,
        ;
    } else {
        assert(f == 0);
    }
}

/// A whole number of at most 24 binary digits is a single-precision number. The distance of two
/// neighbours doubles with each further binary digit, and the nearer of the two is taken.
pub proof fn whole_numbers_in_single_precision(n: nat)
    ensures
        n < 0x100_0000 ==> nearest(n) == n,
        nearest(n) % spacing(n) == 0,
        2 * (nearest(n) - n) <= spacing(n) && 2 * (n - nearest(n)) <= spacing(n),
        n >= 0x100_0000 ==> spacing(n) == 2 * spacing(n / 2),
        n < 0x100_0000 ==> spacing(n) == 1,
{
    lemma_spacing(n);
    lemma_nearest_bound(n);
    let unit = spacing(n);
    let low = n / unit;
    let rest = n % unit;
    lemma_fundamental_div_mod(n as int, unit as int);
    assert(n == unit * low + rest);
    assert(low * unit == unit * low) by (nonlinear_arith);
    assert((low + 1) * unit == unit * low + unit) by (nonlinear_arith);
    lemma_mod_multiples_basic(low as int, unit as int);
    lemma_mod_multiples_basic((low + 1) as int, unit as int);
    assert(rest < unit);
}

/// While single precision is exact, place `i` of an embedding is the mean of the values from the
/// first one of its 128th part of the row on, up to and with the last one that the part touches.
pub proof fn windows_of_a_short_row(i: nat, len: nat)
    requires
        i < 128,
        0 < len < 0x2_0000,
        len <= usize::MAX,
    ensures
        window_at(i, len) == Window::Mean(
            (i * len / 128) as usize,
            (((i + 1) * len + 127) as nat / 128) as usize,
        ),
        (i * len / 128) * 128 <= i * len < (i * len / 128) * 128 + 128,
        (((i + 1) * len + 127) as nat / 128) <= len,
{
    let a = i * len;
    let b = (i + 1) * len;
    assert(a <= 127 * len && b <= 128 * len && b == a + len) by (nonlinear_arith)
        requires
            a == i * len,
            b == (i + 1) * len,
            i < 128,
    ;
    lemma_nearest_bound(len);
    lemma_nearest_bound(a);
    lemma_nearest_bound(b);
    assert((b + 127) / 128 <= len);
    assert(a / 128 < (b + 127) / 128);
}

} // verus!
