//! Paper sizes, and the size that a PDF file asks for.
use vstd::prelude::*;

verus! {

/// A paper size.
#[derive(Clone, Copy, Debug, PartialEq, Eq, Structural)]
pub enum PaperSize {
    A4,
    A5,
}

/// Which paper a job is printed on.
#[derive(Clone, Copy, Debug, PartialEq, Eq, Structural)]
pub enum PaperChoice {
    /// The size that the file asks for.
    FromFile,
    /// This size, whatever the file asks for.
    Forced(PaperSize),
}

/// The name of a size in small letters.
pub open spec fn small_name(size: PaperSize) -> Seq<char> {
    match size {
        PaperSize::A4 => "a4"@,
        PaperSize::A5 => "a5"@,
    }
}

/// The name of a size in capitals.
pub open spec fn capital_name(size: PaperSize) -> Seq<char> {
    match size {
        PaperSize::A4 => "A4"@,
        PaperSize::A5 => "A5"@,
    }
}

/// The number of a size in the settings of a Windows printer.
pub open spec fn printer_code(size: PaperSize) -> i16 {
    match size {
        PaperSize::A4 => 9,
        PaperSize::A5 => 11,
    }
}

impl PaperSize {
    /// The name of the size for Ghostscript.
    pub fn gs_name(self) -> (r: &'static str)
        ensures
            r@ == small_name(self),
    {
        match self {
            PaperSize::A4 => "a4",
            PaperSize::A5 => "a5",
        }
    }

    /// The name of the size for SumatraPDF.
    pub fn sumatra_name(self) -> (r: &'static str)
        ensures
            r@ == capital_name(self),
    {
        match self {
            PaperSize::A4 => "A4",
            PaperSize::A5 => "A5",
        }
    }

    /// The number of the size in the settings of a Windows printer.
    pub fn dm_paper(self) -> (r: i16)
        ensures
            r == printer_code(self),
    {
        match self {
            PaperSize::A4 => 9,
            PaperSize::A5 => 11,
        }
    }

    /// The name of the size for `lp`.
    pub fn lp_media(self) -> (r: &'static str)
        ensures
            r@ == small_name(self),
    {
        match self {
            PaperSize::A4 => "a4",
            PaperSize::A5 => "a5",
        }
    }
}

/// The key of the page size in a PDF file: `/MediaBox`.
pub open spec fn box_key() -> Seq<u8> {
    seq![0x2f, 0x4d, 0x65, 0x64, 0x69, 0x61, 0x42, 0x6f, 0x78]
}

/// The key stands at index `i`.
pub open spec fn key_at(d: Seq<u8>, i: int) -> bool {
    0 <= i && i + 9 <= d.len() && d.subrange(i, i + 9) == box_key()
}

/// White space of a PDF file.
pub open spec fn gap(b: u8) -> bool {
    b == 0 || b == 9 || b == 10 || b == 12 || b == 13 || b == 32
}

/// The first index from `i` on that holds no white space.
pub open spec fn past_gap(d: Seq<u8>, i: int) -> int
    decreases d.len() - i,
{
    if 0 <= i < d.len() && gap(d[i]) {
        past_gap(d, i + 1)
    } else {
        i
    }
}

/// One of the digits `0` to `9`.
pub open spec fn digit(b: u8) -> bool {
    0x30 <= b <= 0x39
}

/// The first index from `i` on that holds no digit.
pub open spec fn past_digits(d: Seq<u8>, i: int) -> int
    decreases d.len() - i,
{
    if 0 <= i < d.len() && digit(d[i]) {
        past_digits(d, i + 1)
    } else {
        i
    }
}

/// The number that a row of digits denotes.
pub open spec fn whole(s: Seq<u8>) -> nat
    decreases s.len(),
{
    if s.len() == 0 {
        0
    } else {
        whole(s.drop_last()) * 10 + (s.last() - 0x30) as nat
    }
}

/// The value of the digit at index `i`, if `i` lies before `end`, and zero behind it.
pub open spec fn digit_or_zero(d: Seq<u8>, i: int, end: int) -> int {
    if i < end {
        d[i] - 0x30
    } else {
        0
    }
}

/// A number of a PDF file, in hundredths, and the index behind it: an optional sign, at most nine
/// digits, and optionally a point and digits, of which the first two count. There is at least one
/// digit.
pub open spec fn number_at(d: Seq<u8>, i: int) -> Option<(int, int)> {
    let signed = 0 <= i < d.len() && (d[i] == 0x2b || d[i] == 0x2d);
    let a = if signed {
        i + 1
    } else {
        i
    };
    let b = past_digits(d, a);
    let point = b < d.len() && d[b] == 0x2e;
    let end = if point {
        past_digits(d, b + 1)
    } else {
        b
    };
    let digits = if point {
        end - a - 1
    } else {
        end - a
    };
    if digits == 0 || b - a > 9 {
        None
    } else {
        let size = whole(d.subrange(a, b)) * 100 + (if point {
            10 * digit_or_zero(d, b + 1, end) + digit_or_zero(d, b + 2, end)
        } else {
            0
        });
        Some(
            (
                if signed && d[i] == 0x2d {
                    -size
                } else {
                    size
                },
                end,
            ),
        )
    }
}

/// So many numbers from index `i` on, white space before each, and the index behind the last.
pub open spec fn numbers_at(d: Seq<u8>, i: int, n: nat) -> Option<(Seq<int>, int)>
    decreases n,
{
    if n == 0 {
        Some((seq![], i))
    } else {
        match numbers_at(d, i, (n - 1) as nat) {
            Some((before, j)) => match number_at(d, past_gap(d, j)) {
                Some((v, end)) => Some((before.push(v), end)),
                None => None,
            },
            None => None,
        }
    }
}

/// The distance of two numbers.
pub open spec fn distance(a: int, b: int) -> int {
    if a < b {
        b - a
    } else {
        a - b
    }
}

/// The width and height, in hundredths of a point, of the page size that stands at index `i`: the
/// key, then an opening bracket, four numbers and a closing bracket.
pub open spec fn box_at(d: Seq<u8>, i: int) -> Option<(int, int)> {
    let open = past_gap(d, i + 9);
    if key_at(d, i) && open < d.len() && d[open] == 0x5b {
        match numbers_at(d, open + 1, 4) {
            Some((v, j)) => {
                let close = past_gap(d, j);
                if close < d.len() && d[close] == 0x5d {
                    Some((distance(v[0], v[2]), distance(v[1], v[3])))
                } else {
                    None
                }
            },
            None => None,
        }
    } else {
        None
    }
}

/// The first page size from index `i` on.
pub open spec fn first_box(d: Seq<u8>, i: int) -> Option<(int, int)>
    decreases d.len() - i,
{
    if i >= d.len() {
        None
    } else if box_at(d, i) is Some {
        box_at(d, i)
    } else {
        first_box(d, i + 1)
    }
}

/// A page of this width and height is an A5 page, upright or on its side: its sides are within
/// five points of 419.53 and 595.28.
pub open spec fn is_a5(width: int, height: int) -> bool {
    let short = if width < height {
        width
    } else {
        height
    };
    let long = if width < height {
        height
    } else {
        width
    };
    distance(short, 41953) <= 500 && distance(long, 59528) <= 500
}

/// The paper size that a file asks for: that of the first page size in it, if that is A5, and
/// otherwise A4.
pub open spec fn detected(d: Seq<u8>) -> PaperSize {
    match first_box(d, 0) {
        Some((w, h)) => if is_a5(w, h) {
            PaperSize::A5
        } else {
            PaperSize::A4
        },
        None => PaperSize::A4,
    }
}

/// The paper that a job is printed on.
pub open spec fn paper_of(choice: PaperChoice, d: Seq<u8>) -> PaperSize {
    match choice {
        PaperChoice::FromFile => detected(d),
        PaperChoice::Forced(size) => size,
    }
}

/// The first index from `i` on that holds no white space.
fn skip_gap(d: &Vec<u8>, i: usize) -> (r: usize)
    requires
        i <= d@.len(),
    ensures
        r == past_gap(d@, i as int),
        i <= r <= d@.len(),
{
    let mut j: usize = i;
    while j < d.len() && (d[j] == 0 || d[j] == 9 || d[j] == 10 || d[j] == 12 || d[j] == 13 || d[j]
        == 32)
        invariant
            i <= j <= d@.len(),
            past_gap(d@, i as int) == past_gap(d@, j as int),
        decreases d@.len() - j,
    {
        j = j + 1;
    }
    j
}

/// The first index from `i` on that holds no digit.
fn skip_digits(d: &Vec<u8>, i: usize) -> (r: usize)
    requires
        i <= d@.len(),
    ensures
        r == past_digits(d@, i as int),
        i <= r <= d@.len(),
        forall|k: int| i <= k < r ==> digit(#[trigger] d@[k]),
{
    let mut j: usize = i;
    while j < d.len() && d[j] >= 0x30 && d[j] <= 0x39
        invariant
            i <= j <= d@.len(),
            past_digits(d@, i as int) == past_digits(d@, j as int),
            forall|k: int| i <= k < j ==> digit(#[trigger] d@[k]),
        decreases d@.len() - j,
    {
        j = j + 1;
    }
    j
}

/// The greatest number of so many digits, and one.
spec fn ten_to(n: nat) -> nat
    decreases n,
{
    if n == 0 {
        1
    } else {
        10 * ten_to((n - 1) as nat)
    }
}

/// The number in a row of at most nine digits.
fn read_whole(d: &Vec<u8>, a: usize, b: usize) -> (r: i64)
    requires
        a <= b <= d@.len(),
        b - a <= 9,
        forall|k: int| a <= k < b ==> digit(#[trigger] d@[k]),
    ensures
        r == whole(d@.subrange(a as int, b as int)),
        0 <= r < 1000000000,
{
    let mut v: i64 = 0;
    let mut i: usize = a;
    assert(d@.subrange(a as int, a as int) =~= seq![]);
    while i < b
        invariant
            a <= i <= b <= d@.len(),
            b - a <= 9,
            v == whole(d@.subrange(a as int, i as int)),
            0 <= v < ten_to((i - a) as nat),
            forall|k: int| a <= k < b ==> digit(#[trigger] d@[k]),
        decreases b - i,
    {
        proof {
            reveal_with_fuel(ten_to, 10);
            let next = d@.subrange(a as int, i + 1);
            assert(next.drop_last() =~= d@.subrange(a as int, i as int));
            assert(digit(d@[i as int]));
        }
        v = v * 10 + (d[i] - 0x30) as i64;
        i = i + 1;
    }
    proof {
        reveal_with_fuel(ten_to, 10);
    }
    v
}

/// The value of the digit at index `i`, if `i` lies before `end`, and zero behind it.
fn read_digit(d: &Vec<u8>, i: usize, end: usize) -> (r: i64)
    requires
        end <= d@.len(),
        i < end ==> digit(d@[i as int]),
    ensures
        r == digit_or_zero(d@, i as int, end as int),
        0 <= r <= 9,
{
    if i < end {
        (d[i] - 0x30) as i64
    } else {
        0
    }
}

/// A number, in hundredths, and the index behind it.
fn read_number(d: &Vec<u8>, i: usize) -> (r: Option<(i64, usize)>)
    requires
        i <= d@.len(),
    ensures
        match r {
            Some((v, end)) => number_at(d@, i as int) == Some((v as int, end as int)) && i <= end
                <= d@.len() && -100000000000 < v < 100000000000,
            None => number_at(d@, i as int) is None,
        },
{
    let signed: bool = i < d.len() && (d[i] == 0x2b || d[i] == 0x2d);
    let a: usize = if signed {
        i + 1
    } else {
        i
    };
    let b: usize = skip_digits(d, a);
    let point: bool = b < d.len() && d[b] == 0x2e;
    let end: usize = if point {
        skip_digits(d, b + 1)
    } else {
        b
    };
    let digits: usize = if point {
        end - a - 1
    } else {
        end - a
    };
    if digits == 0 || b - a > 9 {
        return None;
    }
    let mut size: i64 = read_whole(d, a, b) * 100;
    if point {
        let tenth: i64 = read_digit(d, b + 1, end);
        let hundredth: i64 = if b + 1 < end {
            read_digit(d, b + 2, end)
        } else {
            0
        };
        size = size + 10 * tenth + hundredth;
    }
    if signed && d[i] == 0x2d {
        Some((-size, end))
    } else {
        Some((size, end))
    }
}

/// The number behind white space, in hundredths, and the index behind it.
fn next_number(d: &Vec<u8>, i: usize) -> (r: Option<(i64, usize)>)
    requires
        i <= d@.len(),
    ensures
        match r {
            Some((v, end)) => number_at(d@, past_gap(d@, i as int)) == Some((v as int, end as int))
                && i <= end <= d@.len() && -100000000000 < v < 100000000000,
            None => number_at(d@, past_gap(d@, i as int)) is None,
        },
{
    let at: usize = skip_gap(d, i);
    read_number(d, at)
}

/// The distance of two numbers.
fn apart(a: i64, b: i64) -> (r: i64)
    requires
        -100000000000 < a < 100000000000,
        -100000000000 < b < 100000000000,
    ensures
        r == distance(a as int, b as int),
{
    if a < b {
        b - a
    } else {
        a - b
    }
}

/// Whether the key stands at index `i`.
fn is_key_at(d: &Vec<u8>, i: usize) -> (r: bool)
    requires
        i <= d@.len(),
    ensures
        r == key_at(d@, i as int),
{
    if d.len() - i < 9 {
        return false;
    }
    let ok: bool = d[i] == 0x2f && d[i + 1] == 0x4d && d[i + 2] == 0x65 && d[i + 3] == 0x64 && d[i
        + 4] == 0x69 && d[i + 5] == 0x61 && d[i + 6] == 0x42 && d[i + 7] == 0x6f && d[i + 8]
        == 0x78;
    let ghost s = d@.subrange(i as int, i + 9);
    assert(ok ==> s =~= box_key());
    assert(s == box_key() ==> ok) by {
        assert(s[0] == d@[i as int] && s[1] == d@[i + 1] && s[2] == d@[i + 2] && s[3] == d@[i + 3]
            && s[4] == d@[i + 4] && s[5] == d@[i + 5] && s[6] == d@[i + 6] && s[7] == d@[i + 7]
            && s[8] == d@[i + 8]);
    }
    ok
}

/// The width and height of the page size that stands at index `i`.
fn read_box(d: &Vec<u8>, i: usize) -> (r: Option<(i64, i64)>)
    requires
        i <= d@.len(),
    ensures
        match r {
            Some((w, h)) => box_at(d@, i as int) == Some((w as int, h as int)),
            None => box_at(d@, i as int) is None,
        },
{
    if !is_key_at(d, i) {
        return None;
    }
    let _n: usize = d.len();
    let open: usize = skip_gap(d, i + 9);
    if open == d.len() || d[open] != 0x5b {
        return None;
    }
    proof {
        reveal_with_fuel(numbers_at, 5);
    }
    let (x0, p0): (i64, usize) = match next_number(d, open + 1) {
        Some(v) => v,
        None => {
            return None;
        },
    };
    let (y0, p1): (i64, usize) = match next_number(d, p0) {
        Some(v) => v,
        None => {
            return None;
        },
    };
    let (x1, p2): (i64, usize) = match next_number(d, p1) {
        Some(v) => v,
        None => {
            return None;
        },
    };
    let (y1, p3): (i64, usize) = match next_number(d, p2) {
        Some(v) => v,
        None => {
            return None;
        },
    };
    let close: usize = skip_gap(d, p3);
    if close < d.len() && d[close] == 0x5d {
        Some((apart(x0, x1), apart(y0, y1)))
    } else {
        None
    }
}

/// The paper size that a file asks for.
pub fn detect_paper_size(d: &Vec<u8>) -> (r: PaperSize)
    ensures
        r == detected(d@),
{
    let mut i: usize = 0;
    while i < d.len()
        invariant
            i <= d@.len(),
            first_box(d@, 0) == first_box(d@, i as int),
        decreases d@.len() - i,
    {
        match read_box(d, i) {
            Some((w, h)) => {
                let (short, long): (i64, i64) = if w < h {
                    (w, h)
                } else {
                    (h, w)
                };
                let a5: bool = short >= 41453 && short <= 42453 && long >= 59028 && long <= 60028;
                return if a5 {
                    PaperSize::A5
                } else {
                    PaperSize::A4
                };
            },
            None => {},
        }
        i = i + 1;
    }
    PaperSize::A4
}

/// The paper that a job is printed on.
pub fn choose_paper(choice: PaperChoice, d: &Vec<u8>) -> (r: PaperSize)
    ensures
        r == paper_of(choice, d@),
{
    match choice {
        PaperChoice::FromFile => detect_paper_size(d),
        PaperChoice::Forced(size) => size,
    }
}

/// A number in decimal notation.
pub open spec fn digits(n: nat) -> Seq<u8>
    decreases n,
{
    if n < 10 {
        seq![(0x30 + n) as u8]
    } else {
        digits(n / 10).push((0x30 + n % 10) as u8)
    }
}

/// The entry of a page of this width and height, in points: the key and `[0 0 w h]`.
pub open spec fn box_entry(width: nat, height: nat) -> Seq<u8> {
    box_key() + seq![0x5b, 0x30, 0x20, 0x30, 0x20] + digits(width) + seq![0x20] + digits(height)
        + seq![0x5d]
}

proof fn lemma_digits(n: nat, k: nat)
    requires
        n < ten_to(k),
        k > 0,
    ensures
        0 < digits(n).len() <= k,
        forall|i: int| 0 <= i < digits(n).len() ==> digit(#[trigger] digits(n)[i]),
        whole(digits(n)) == n,
    decreases n,
{
    reveal_with_fuel(ten_to, 2);
    reveal_with_fuel(whole, 2);
    if n >= 10 {
        assert(k > 1);
        lemma_digits(n / 10, (k - 1) as nat);
        assert(digits(n).drop_last() =~= digits(n / 10));
        assert(whole(digits(n)) == whole(digits(n / 10)) * 10 + n % 10);
    } else {
        assert(digits(n).drop_last() =~= seq![]);
    }
}

proof fn lemma_past_digits(d: Seq<u8>, i: int, end: int)
    requires
        0 <= i <= end < d.len(),
        forall|k: int| i <= k < end ==> digit(#[trigger] d[k]),
        !digit(d[end]),
    ensures
        past_digits(d, i) == end,
    decreases end - i,
{
    if i < end {
        assert(digit(d[i]));
        lemma_past_digits(d, i + 1, end);
    }
}

/// A number in decimal notation is read, with white space before it or without.
proof fn lemma_number(d: Seq<u8>, at: int, a: int, n: nat)
    requires
        n < 1000000000,
        at == a || (at == a - 1 && d[at] == 0x20),
        0 <= at,
        a + digits(n).len() < d.len(),
        d.subrange(a, a + digits(n).len()) == digits(n),
        d[a + digits(n).len()] == 0x20 || d[a + digits(n).len()] == 0x5d,
    ensures
        number_at(d, past_gap(d, at)) == Some((100 * n as int, a + digits(n).len())),
{
    assert(ten_to(9) == 1000000000) by {
        reveal_with_fuel(ten_to, 10);
    }
    lemma_digits(n, 9);
    let end = a + digits(n).len();
    let row = d.subrange(a, end);
    assert forall|k: int| a <= k < end implies digit(#[trigger] d[k]) by {
        assert(row[k - a] == d[k]);
        assert(digit(digits(n)[k - a]));
    }
    assert(digit(d[a]));
    reveal_with_fuel(past_gap, 3);
    assert(past_gap(d, at) == a);
    lemma_past_digits(d, a, end);
}

proof fn lemma_entry(d: Seq<u8>, p: int, width: nat, height: nat)
    requires
        width < 1000000000,
        height < 1000000000,
        0 <= p,
        p + box_entry(width, height).len() <= d.len(),
        d.subrange(p, p + box_entry(width, height).len()) == box_entry(width, height),
    ensures
        box_at(d, p) == Some((100 * width as int, 100 * height as int)),
{
    let e = box_entry(width, height);
    let w = digits(width);
    let h = digits(height);
    let wa = p + 14;
    let ha = wa + w.len() + 1;
    let close = ha + h.len();
    let row = d.subrange(p, p + e.len());
    assert forall|k: int| 0 <= k < e.len() implies #[trigger] d[p + k] == e[k] by {
        assert(row[k] == d[p + k]);
    }
    assert(d.subrange(p, p + 9) =~= box_key()) by {
        assert forall|k: int| 0 <= k < 9 implies #[trigger] d.subrange(p, p + 9)[k] == box_key()[k] by {
            assert(d[p + k] == e[k]);
        }
    }
    assert(d[p + 9] == e[9] && d[p + 10] == e[10] && d[p + 11] == e[11] && d[p + 12] == e[12] && d[p
        + 13] == e[13]);
    assert(e[9] == 0x5b && e[10] == 0x30 && e[11] == 0x20 && e[12] == 0x30 && e[13] == 0x20);
    assert(d[p + (14 + w.len() as int)] == e[14 + w.len() as int]);
    assert(d[p + (15 + w.len() as int + h.len())] == e[15 + w.len() as int + h.len()]);
    assert(d[wa + w.len()] == 0x20);
    assert(d[close] == 0x5d);
    assert(d.subrange(wa, wa + w.len()) =~= w) by {
        assert forall|k: int| 0 <= k < w.len() implies #[trigger] d.subrange(wa, wa + w.len())[k]
            == w[k] by {
            assert(d[p + (14 + k)] == e[14 + k]);
        }
    }
    assert(d.subrange(ha, close) =~= h) by {
        assert forall|k: int| 0 <= k < h.len() implies #[trigger] d.subrange(ha, close)[k] == h[k] by {
            assert(d[p + (15 + w.len() + k)] == e[15 + w.len() + k]);
        }
    }
    assert(digits(0) =~= seq![0x30u8]);
    assert(d.subrange(p + 10, p + 11) =~= digits(0));
    assert(d.subrange(p + 12, p + 13) =~= digits(0));
    lemma_number(d, p + 10, p + 10, 0);
    lemma_number(d, p + 11, p + 12, 0);
    lemma_number(d, p + 13, wa, width);
    lemma_number(d, wa + w.len(), ha, height);
    reveal_with_fuel(numbers_at, 5);
    assert(past_gap(d, p + 9) == p + 9);
    assert(past_gap(d, close) == close);
}

/// A file whose first page size is written with whole numbers is printed on A5 if that is an A5
/// page, and on A4 otherwise; what stands before the entry must not hold the key itself.
pub proof fn a_written_page_size_is_detected(
    before: Seq<u8>,
    width: nat,
    height: nat,
    rest: Seq<u8>,
)
    requires
        width < 1000000000,
        height < 1000000000,
        forall|k: int| 0 <= k < before.len() ==> !key_at(before + box_entry(width, height) + rest, k),
    ensures
        detected(before + box_entry(width, height) + rest) == if is_a5(
            100 * width as int,
            100 * height as int,
        ) {
            PaperSize::A5
        } else {
            PaperSize::A4
        },
{
    let e = box_entry(width, height);
    let d = before + e + rest;
    let p = before.len() as int;
    assert(d.subrange(p, p + e.len()) =~= e);
    lemma_entry(d, p, width, height);
    lemma_skip_to(d, 0, p);
    assert(e.len() > 0);
}

proof fn lemma_skip_to(d: Seq<u8>, i: int, j: int)
    requires
        0 <= i <= j <= d.len(),
        forall|k: int| i <= k < j ==> !key_at(d, k),
    ensures
        first_box(d, i) == first_box(d, j),
    decreases j - i,
{
    if i < j {
        assert(!key_at(d, i));
        lemma_skip_to(d, i + 1, j);
    }
}

proof fn lemma_no_key(d: Seq<u8>, i: int)
    requires
        forall|k: int| !key_at(d, k),
    ensures
        first_box(d, i) is None,
    decreases d.len() - i,
{
    if i < d.len() {
        lemma_no_key(d, i + 1);
    }
}

/// A file without a page size is printed on A4.
pub proof fn a_file_without_a_page_size_is_a4(d: Seq<u8>)
    requires
        forall|k: int| !key_at(d, k),
    ensures
        detected(d) == PaperSize::A4,
{
    lemma_no_key(d, 0);
}

/// A page that is turned has the same size.
pub proof fn turning_a_page_keeps_its_size(width: int, height: int)
    ensures
        is_a5(width, height) == is_a5(height, width),
{
}

/// Whatever tells a size tells it from the other one.
pub proof fn sizes_are_told_apart(a: PaperSize, b: PaperSize)
    ensures
        (small_name(a) == small_name(b)) == (a == b),
        (capital_name(a) == capital_name(b)) == (a == b),
        (printer_code(a) == printer_code(b)) == (a == b),
{
    reveal_strlit("a4");
    reveal_strlit("a5");
    reveal_strlit("A4");
    reveal_strlit("A5");
    assert("a4"@[1] == '4' && "a5"@[1] == '5');
    assert("A4"@[1] == '4' && "A5"@[1] == '5');
}

/// A size that the request gives is used, whatever the file asks for, and without one the size that
/// the file asks for.
pub proof fn a_forced_size_is_used(size: PaperSize, d: Seq<u8>)
    ensures
        paper_of(PaperChoice::Forced(size), d) == size,
        paper_of(PaperChoice::FromFile, d) == detected(d),
{
}

/// All of `s` is white space of a PDF file.
pub open spec fn gaps(s: Seq<u8>) -> bool {
    forall|i: int| 0 <= i < s.len() ==> gap(#[trigger] s[i])
}

/// All of `s` are digits.
pub open spec fn digit_row(s: Seq<u8>) -> bool {
    forall|i: int| 0 <= i < s.len() ==> digit(#[trigger] s[i])
}

/// A written number: its sign, if it has one, the digits before the point, and, if it has a point,
/// those behind it.
pub struct Numeral {
    pub sign: Option<u8>,
    pub whole: Seq<u8>,
    pub fraction: Option<Seq<u8>>,
}

impl Numeral {
    /// The sign is a plus or a minus; there are at most nine digits before the point, and at least
    /// one digit in all.
    #[verifier::opaque]
    pub open spec fn valid(self) -> bool {
        &&& self.sign matches Some(b) ==> b == 0x2b || b == 0x2d
        &&& digit_row(self.whole)
        &&& self.whole.len() <= 9
        &&& match self.fraction {
            Some(f) => digit_row(f) && self.whole.len() + f.len() > 0,
            None => self.whole.len() > 0,
        }
    }

    /// How the number is written.
    #[verifier::opaque]
    pub open spec fn written(self) -> Seq<u8> {
        (match self.sign {
            Some(b) => seq![b],
            None => seq![],
        }) + self.whole + (match self.fraction {
            Some(f) => seq![0x2eu8] + f,
            None => seq![],
        })
    }

    /// The hundredths that the number stands for; digits behind the second one of the fraction are
    /// left out.
    #[verifier::opaque]
    pub open spec fn hundredths(self) -> int {
        let size = 100 * whole(self.whole) + match self.fraction {
            Some(f) => (if f.len() > 0 {
                10 * (f[0] - 0x30)
            } else {
                0
            }) + (if f.len() > 1 {
                f[1] - 0x30
            } else {
                0
            }),
            None => 0,
        };
        if self.sign == Some(0x2du8) {
            -size
        } else {
            size
        }
    }
}

/// A row of digits is read in the scale of ten.
pub proof fn digits_are_read_in_the_scale_of_ten(s: Seq<u8>, b: u8)
    requires
        digit(b),
    ensures
        whole(s.push(b)) == 10 * whole(s) + (b - 0x30),
        whole(seq![]) == 0,
{
    assert(s.push(b).drop_last() =~= s);
}

proof fn lemma_row(d: Seq<u8>, x: Seq<u8>, w: Seq<u8>, y: Seq<u8>)
    requires
        d == x + w + y,
        digit_row(w),
        y.len() > 0,
        !digit(y[0]),
    ensures
        past_digits(d, x.len() as int) == x.len() + w.len(),
        d.subrange(x.len() as int, (x.len() + w.len()) as int) == w,
        d[(x.len() + w.len()) as int] == y[0],
{
    let a = x.len() as int;
    let b = (x.len() + w.len()) as int;
    assert(d.subrange(a, b) =~= w);
    assert(d[b] == y[0]);
    assert forall|k: int| a <= k < b implies digit(#[trigger] d[k]) by {
        assert(d[k] == w[k - a]);
    }
    lemma_past_digits(d, a, b);
}

/// A written number is read as the hundredths that it stands for, however many digits there are
/// behind the point, and reading ends right behind it.
pub proof fn a_written_number_is_read(before: Seq<u8>, n: Numeral, rest: Seq<u8>)
    requires
        n.valid(),
        rest.len() > 0,
        !digit(rest[0]),
        rest[0] != 0x2e,
    ensures
        number_at(before + n.written() + rest, before.len() as int) == Some(
            (n.hundredths(), (before.len() + n.written().len()) as int),
        ),
{
    reveal(Numeral::valid);
    reveal(Numeral::written);
    reveal(Numeral::hundredths);
    let d = before + n.written() + rest;
    let i = before.len() as int;
    let head: Seq<u8> = match n.sign {
        Some(b) => seq![b],
        None => seq![],
    };
    let tail: Seq<u8> = match n.fraction {
        Some(f) => seq![0x2eu8] + f,
        None => seq![],
    };
    let x = before + head;
    let y = tail + rest;
    let a = x.len() as int;
    let b = a + n.whole.len();
    assert(d =~= x + n.whole + y);
    lemma_row(d, x, n.whole, y);
    match n.sign {
        Some(s) => {
            assert(d[i] == s);
        },
        None => {
            if n.whole.len() > 0 {
                assert(d[i] == n.whole[0]);
            } else {
                assert(d[i] == y[0]);
            }
        },
    }
    match n.fraction {
        Some(f) => {
            let x2 = x + n.whole + seq![0x2eu8];
            assert(d =~= x2 + f + rest);
            lemma_row(d, x2, f, rest);
            if f.len() > 0 {
                assert(d[b + 1] == f[0]);
            }
            if f.len() > 1 {
                assert(d[b + 2] == f[1]);
            }
        },
        None => {
            assert(y =~= rest);
        },
    }
}

/// A number with one to nine digits before the point and one or more behind it is read as a hundred
/// times the whole part, ten times the first digit behind the point, and the second one if there is
/// one.
pub proof fn a_decimal_number_is_read(before: Seq<u8>, w: Seq<u8>, f: Seq<u8>, rest: Seq<u8>)
    requires
        digit_row(w),
        1 <= w.len() <= 9,
        digit_row(f),
        f.len() >= 1,
        rest.len() > 0,
        !digit(rest[0]),
        rest[0] != 0x2e,
    ensures
        number_at(before + (w + seq![0x2eu8] + f) + rest, before.len() as int) == Some(
            (
                100 * whole(w) + 10 * (f[0] - 0x30) + (if f.len() > 1 {
                    f[1] - 0x30
                } else {
                    0
                }),
                (before.len() + w.len() + 1 + f.len()) as int,
            ),
        ),
{
    reveal(Numeral::valid);
    reveal(Numeral::written);
    reveal(Numeral::hundredths);
    let n = Numeral { sign: None, whole: w, fraction: Some(f) };
    assert(n.written() =~= w + seq![0x2eu8] + f);
    a_written_number_is_read(before, n, rest);
}

proof fn lemma_gap(d: Seq<u8>, x: Seq<u8>, g: Seq<u8>, y: Seq<u8>)
    requires
        d == x + (g + y),
        gaps(g),
        y.len() > 0,
        !gap(y[0]),
    ensures
        past_gap(d, x.len() as int) == x.len() + g.len(),
    decreases g.len(),
{
    let i = x.len() as int;
    if g.len() == 0 {
        assert(d[i] == y[0]);
    } else {
        assert(d[i] == g[0]);
        let x2 = x.push(g[0]);
        let g2 = g.skip(1);
        assert(d =~= x2 + (g2 + y));
        assert(gaps(g2)) by {
            assert forall|k: int| 0 <= k < g2.len() implies gap(#[trigger] g2[k]) by {
                assert(g2[k] == g[k + 1]);
            }
        }
        lemma_gap(d, x2, g2, y);
    }
}

proof fn lemma_next_number(
    d: Seq<u8>,
    x: Seq<u8>,
    g: Seq<u8>,
    n: Numeral,
    y: Seq<u8>,
) -> (z: Seq<u8>)
    requires
        d == x + (g + (n.written() + y)),
        gaps(g),
        n.valid(),
        y.len() > 0,
        !digit(y[0]),
        y[0] != 0x2e,
    ensures
        z.len() == x.len() + g.len() + n.written().len(),
        d == z + y,
        number_at(d, past_gap(d, x.len() as int)) == Some((n.hundredths(), z.len() as int)),
{
    let t = n.written() + y;
    let first = n.written()[0];
    assert(n.written().len() > 0 && !gap(first)) by {
        reveal(Numeral::valid);
        reveal(Numeral::written);
        match n.sign {
            Some(s) => assert(first == s),
            None => {
                if n.whole.len() > 0 {
                    assert(first == n.whole[0]);
                } else {
                    assert(first == 0x2e);
                }
            },
        }
    }
    assert(t[0] == first);
    lemma_gap(d, x, g, t);
    let x2 = x + g;
    assert(d =~= x2 + n.written() + y);
    a_written_number_is_read(x2, n, y);
    x2 + n.written()
}

proof fn lemma_ends_a_number(g: Seq<u8>, y: Seq<u8>)
    requires
        gaps(g),
        g.len() > 0 || (y.len() > 0 && !digit(y[0]) && y[0] != 0x2e),
    ensures
        (g + y).len() > 0,
        !digit((g + y)[0]),
        (g + y)[0] != 0x2e,
{
    if g.len() > 0 {
        assert((g + y)[0] == g[0]);
    } else {
        assert((g + y)[0] == y[0]);
    }
}

/// A page size as it is written: white space before the opening bracket, before each of the four
/// numbers and before the closing bracket.
pub struct WrittenBox {
    pub before_open: Seq<u8>,
    pub gap_left: Seq<u8>,
    pub left: Numeral,
    pub gap_low: Seq<u8>,
    pub low: Numeral,
    pub gap_right: Seq<u8>,
    pub right: Numeral,
    pub gap_high: Seq<u8>,
    pub high: Numeral,
    pub before_close: Seq<u8>,
}

impl WrittenBox {
    /// The white space is some, of any length, and between two numbers there is some.
    pub open spec fn valid(self) -> bool {
        &&& gaps(self.before_open)
        &&& gaps(self.gap_left)
        &&& gaps(self.gap_low)
        &&& gaps(self.gap_right)
        &&& gaps(self.gap_high)
        &&& gaps(self.before_close)
        &&& self.gap_low.len() > 0
        &&& self.gap_right.len() > 0
        &&& self.gap_high.len() > 0
        &&& self.left.valid()
        &&& self.low.valid()
        &&& self.right.valid()
        &&& self.high.valid()
    }

    /// How the page size, with what stands behind it, is written behind the key.
    pub open spec fn written(self, rest: Seq<u8>) -> Seq<u8> {
        self.before_open + (seq![0x5bu8] + (self.gap_left + (self.left.written() + (self.gap_low + (
        self.low.written() + (self.gap_right + (self.right.written() + (self.gap_high + (
        self.high.written() + (self.before_close + (seq![0x5du8] + rest)))))))))))
    }
}

proof fn lemma_shift(x: Seq<u8>, a: Seq<u8>, y: Seq<u8>)
    ensures
        x + (a + y) == (x + a) + y,
{
    assert(x + (a + y) =~= (x + a) + y);
}

/// So many numbers are read up to this index.
#[verifier::opaque]
spec fn are_read(d: Seq<u8>, i: int, k: nat, vs: Seq<int>, at: int) -> bool {
    numbers_at(d, i, k) == Some((vs, at))
}

/// One more number is read.
proof fn lemma_one_more(
    d: Seq<u8>,
    i: int,
    k: nat,
    vs: Seq<int>,
    x: Seq<u8>,
    g: Seq<u8>,
    n: Numeral,
    g2: Seq<u8>,
    y: Seq<u8>,
) -> (z: Seq<u8>)
    requires
        are_read(d, i, k, vs, x.len() as int),
        d == x + (g + (n.written() + (g2 + y))),
        gaps(g),
        n.valid(),
        gaps(g2),
        g2.len() > 0 || (y.len() > 0 && !digit(y[0]) && y[0] != 0x2e),
    ensures
        d == z + (g2 + y),
        are_read(d, i, k + 1, vs.push(n.hundredths()), z.len() as int),
{
    reveal(are_read);
    lemma_ends_a_number(g2, y);
    lemma_next_number(d, x, g, n, g2 + y)
}

proof fn lemma_four(d: Seq<u8>, x: Seq<u8>, b: WrittenBox, close: Seq<u8>) -> (z: Seq<u8>)
    requires
        b.valid(),
        d == x + (b.gap_left + (b.left.written() + (b.gap_low + (b.low.written() + (b.gap_right + (
        b.right.written() + (b.gap_high + (b.high.written() + (b.before_close + close))))))))),
        close.len() > 0,
        close[0] == 0x5d,
    ensures
        d == z + (b.before_close + close),
        are_read(
            d,
            x.len() as int,
            4,
            seq![
                b.left.hundredths(),
                b.low.hundredths(),
                b.right.hundredths(),
                b.high.hundredths(),
            ],
            z.len() as int,
        ),
{
    let i = x.len() as int;
    let t4 = b.high.written() + (b.before_close + close);
    let t3 = b.right.written() + (b.gap_high + t4);
    let t2 = b.low.written() + (b.gap_right + t3);
    let v0 = Seq::<int>::empty();
    let v1 = v0.push(b.left.hundredths());
    let v2 = v1.push(b.low.hundredths());
    let v3 = v2.push(b.right.hundredths());
    assert(are_read(d, i, 0, v0, i)) by {
        reveal(are_read);
    }
    let x1 = lemma_one_more(d, i, 0, v0, x, b.gap_left, b.left, b.gap_low, t2);
    let x2 = lemma_one_more(d, i, 1, v1, x1, b.gap_low, b.low, b.gap_right, t3);
    let x3 = lemma_one_more(d, i, 2, v2, x2, b.gap_right, b.right, b.gap_high, t4);
    let x4 = lemma_one_more(d, i, 3, v3, x3, b.gap_high, b.high, b.before_close, close);
    assert(v3.push(b.high.hundredths()) =~= seq![
        b.left.hundredths(),
        b.low.hundredths(),
        b.right.hundredths(),
        b.high.hundredths(),
    ]);
    x4
}

#[verifier::rlimit(40)]
proof fn lemma_box(d: Seq<u8>, p: int, x: Seq<u8>, b: WrittenBox, rest: Seq<u8>)
    requires
        b.valid(),
        d == x + b.written(rest),
        x.len() == p + 9,
        key_at(d, p),
    ensures
        box_at(d, p) == Some(
            (
                distance(b.left.hundredths(), b.right.hundredths()),
                distance(b.low.hundredths(), b.high.hundredths()),
            ),
        ),
{
    let close = seq![0x5du8] + rest;
    assert(close[0] == 0x5d);
    let t1 = b.gap_left + (b.left.written() + (b.gap_low + (b.low.written() + (b.gap_right + (
    b.right.written() + (b.gap_high + (b.high.written() + (b.before_close + close))))))));
    let t0 = seq![0x5bu8] + t1;
    assert(t0[0] == 0x5b);
    lemma_gap(d, x, b.before_open, t0);
    lemma_shift(x, b.before_open, t0);
    let x0 = x + b.before_open;
    assert(d[x0.len() as int] == t0[0]);
    lemma_shift(x0, seq![0x5bu8], t1);
    let x1 = x0 + seq![0x5bu8];
    let z = lemma_four(d, x1, b, close);
    reveal(are_read);
    lemma_gap(d, z, b.before_close, close);
    lemma_shift(z, b.before_close, close);
    assert(d[(z + b.before_close).len() as int] == close[0]);
}

/// A file whose first page size is written with numbers of any form, and with any white space, is
/// printed on A5 exactly if the shorter side is within five points of 419.53 and the longer one
/// within five points of 595.28, and on A4 otherwise.
pub proof fn a_page_size_of_any_form_is_detected(before: Seq<u8>, b: WrittenBox, rest: Seq<u8>)
    requires
        b.valid(),
        forall|k: int|
            0 <= k < before.len() ==> !key_at(before + box_key() + b.written(rest), k),
    ensures
        detected(before + box_key() + b.written(rest)) == PaperSize::A5 <==> {
            let across = if b.left.hundredths() < b.right.hundredths() {
                b.right.hundredths() - b.left.hundredths()
            } else {
                b.left.hundredths() - b.right.hundredths()
            };
            let up = if b.low.hundredths() < b.high.hundredths() {
                b.high.hundredths() - b.low.hundredths()
            } else {
                b.low.hundredths() - b.high.hundredths()
            };
            ||| 41953 - 500 <= across <= 41953 + 500 && 59528 - 500 <= up <= 59528 + 500
            ||| 41953 - 500 <= up <= 41953 + 500 && 59528 - 500 <= across <= 59528 + 500
        },
{
    let x = before + box_key();
    let d = x + b.written(rest);
    let p = before.len() as int;
    assert(d.subrange(p, p + 9) =~= box_key());
    assert(x.len() == p + 9);
    lemma_box(d, p, x, b, rest);
    lemma_skip_to(d, 0, p);
}

/// The sizes have these names and numbers.
pub proof fn sizes_have_their_names()
    ensures
        small_name(PaperSize::A4) == "a4"@,
        small_name(PaperSize::A5) == "a5"@,
        capital_name(PaperSize::A4) == "A4"@,
        capital_name(PaperSize::A5) == "A5"@,
        printer_code(PaperSize::A4) == 9,
        printer_code(PaperSize::A5) == 11,
{
}

proof fn lemma_pass_over(d: Seq<u8>, i: int, j: int)
    requires
        0 <= i <= j <= d.len(),
        forall|k: int| i <= k < j ==> box_at(d, k) is None,
    ensures
        first_box(d, i) == first_box(d, j),
    decreases j - i,
{
    if i < j {
        assert(box_at(d, i) is None);
        lemma_pass_over(d, i + 1, j);
    }
}

/// The first page size that can be read decides, whatever comes behind it; a key without one is
/// passed over.
pub proof fn the_first_page_size_decides(d: Seq<u8>, p: int, width: int, height: int)
    requires
        0 <= p < d.len(),
        forall|k: int| 0 <= k < p ==> box_at(d, k) is None,
        box_at(d, p) == Some((width, height)),
        0 <= width <= height,
    ensures
        detected(d) == PaperSize::A5 <==> 41453 <= width <= 42453 && 59028 <= height <= 60028,
{
    lemma_pass_over(d, 0, p);
}

/// White space of a PDF file is the zero byte, the tabulator, the two ends of a line, the end of a
/// page and the space; a digit is one of `0` to `9`; and the key of the page size is `/MediaBox`.
pub proof fn bytes_of_a_page_size(b: u8)
    ensures
        gap(b) <==> b == 0 || b == 9 || b == 10 || b == 12 || b == 13 || b == 32,
        digit(b) <==> 48 <= b <= 57,
        box_key() == seq![47u8, 77, 101, 100, 105, 97, 66, 111, 120],
{
    assert(box_key() =~= seq![47u8, 77, 101, 100, 105, 97, 66, 111, 120]);
}

} // verus!
