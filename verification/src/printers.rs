//! The printers of the system.
use crate::text;
use crate::unicode;
use crate::wide;
use vstd::prelude::*;
use vstd::string::*;

verus! {

/// The printers and the default one among them.
#[derive(Debug)]
pub struct PrinterList {
    pub default: Option<String>,
    pub printers: Vec<String>,
}

/// The number of characters before the first line break.
pub open spec fn line_len(s: Seq<char>) -> nat
    decreases s.len(),
{
    if s.len() == 0 || s[0] == '\n' {
        0
    } else {
        1 + line_len(s.skip(1))
    }
}

/// The first word of a line, if it has one.
pub open spec fn first_word(line: Seq<char>) -> Seq<Seq<char>> {
    let w = text::words(line);
    if w.len() == 0 {
        seq![]
    } else {
        seq![w[0]]
    }
}

/// The first words of the lines of a text; a line without a word gives none.
pub open spec fn first_words(s: Seq<char>) -> Seq<Seq<char>>
    decreases s.len(),
{
    let n = line_len(s);
    let here = first_word(s.take(n as int));
    if n < s.len() {
        here + first_words(s.skip(n as int + 1))
    } else {
        here
    }
}

proof fn lemma_line_len(s: Seq<char>, n: int)
    requires
        0 <= n <= s.len(),
        forall|i: int| 0 <= i < n ==> s[i] != '\n',
        n < s.len() ==> s[n] == '\n',
    ensures
        line_len(s) == n,
    decreases s.len(),
{
    if n > 0 {
        lemma_line_len(s.skip(1), n - 1);
    }
}

/// The names in a listing of printers: the first words of its lines.
pub fn printer_names(s: &str) -> (r: Vec<String>)
    ensures
        text::texts(r@) == first_words(s@),
{
    let cs = text::chars_of(s);
    let n: usize = cs.len();
    let mut r: Vec<String> = Vec::new();
    let mut start: usize = 0;
    let mut done = false;
    assert(cs@.skip(0) =~= cs@);
    assert(text::texts(r@) + first_words(cs@) =~= first_words(cs@));
    while !done
        invariant
            n == cs@.len(),
            cs@ == s@,
            start <= n,
            !done ==> text::texts(r@) + first_words(cs@.skip(start as int)) == first_words(cs@),
            done ==> text::texts(r@) == first_words(cs@),
        decreases
                if done {
                    0
                } else {
                    n + 1 - start
                },
    {
        let ghost rest = cs@.skip(start as int);
        let ghost before = text::texts(r@);
        let mut end: usize = start;
        while end < n && cs[end] != '\n'
            invariant
                start <= end <= n,
                n == cs@.len(),
                forall|k: int| start <= k < end ==> cs@[k] != '\n',
            decreases n - end,
        {
            end = end + 1;
        }
        proof {
            assert forall|i: int| 0 <= i < end - start implies rest[i] != '\n' by {
                assert(rest[i] == cs@[start + i]);
            }
            if end < n {
                assert(rest[end - start] == cs@[end as int]);
            }
            lemma_line_len(rest, end - start);
            assert(rest.take(end - start) =~= cs@.subrange(start as int, end as int));
        }
        let line = text::string_of(&cs, start, end);
        let ws = text::split_whitespace(line.as_str());
        if ws.len() > 0 {
            text::add_text(&mut r, ws[0].as_str());
            assert(text::texts(ws@)[0] == ws@[0]@);
        }
        assert(text::texts(r@) =~= before + first_word(line@));
        if end < n {
            assert(rest.skip(end - start + 1) =~= cs@.skip(end + 1));
            start = end + 1;
            assert(text::texts(r@) + first_words(cs@.skip(start as int)) =~= before + first_words(
                rest,
            ));
        } else {
            done = true;
        }
    }
    r
}

/// The names in what `lpstat -a` prints: the first word of each line. There are none if the program
/// could not be run.
pub fn printers_of(stdout: Option<&Vec<u8>>) -> (r: Vec<String>)
    ensures
        text::texts(r@) == match stdout {
            Some(b) => first_words(unicode::utf8_lossy(b@)),
            None => seq![],
        },
{
    match stdout {
        Some(b) => printer_names(unicode::lossy(b).as_str()),
        None => {
            let r: Vec<String> = Vec::new();
            assert(text::texts(r@) =~= seq![]);
            r
        },
    }
}

/// The default printer: the name that the system has put into a buffer of the size that it asked
/// for, if it asked for any and then succeeded.
pub fn default_printer(size: u32, filled: bool, buffer: &Vec<u16>) -> (r: Option<String>)
    ensures
        text::opt_text(r) == if size == 0 || !filled {
            None
        } else {
            Some(wide::decoded(wide::before_zero(buffer@)))
        },
{
    if size == 0 || !filled {
        None
    } else {
        Some(wide::wide_text(buffer))
    }
}

/// The names in a listing are found line by line: those of a line and of what stands behind its
/// break are those of the line and then those of the rest.
pub proof fn lines_are_read_one_by_one(line: Seq<char>, rest: Seq<char>)
    requires
        forall|i: int| 0 <= i < line.len() ==> #[trigger] line[i] != '\n',
    ensures
        first_words(line + seq!['\n'] + rest) == first_words(line) + first_words(rest),
{
    let s = line + seq!['\n'] + rest;
    let n = line.len() as int;
    assert(s[n] == '\n');
    assert forall|i: int| 0 <= i < n implies s[i] != '\n' by {
        assert(s[i] == line[i]);
    }
    lemma_line_len(s, n);
    lemma_line_len(line, n);
    assert(s.take(n) =~= line);
    assert(line.take(n) =~= line);
    assert(s.skip(n + 1) =~= rest);
}

/// A line gives its first word, whatever white space stands before it and whatever follows it, and a
/// line of white space only gives none.
pub proof fn a_line_gives_its_first_word(p: Seq<char>, w: Seq<char>, tail: Seq<char>)
    requires
        text::blank(p),
        w.len() > 0,
        forall|i: int| 0 <= i < w.len() ==> !text::white(#[trigger] w[i]),
        tail.len() == 0 || text::white(tail[0]),
        forall|i: int| 0 <= i < p.len() ==> #[trigger] p[i] != '\n',
        forall|i: int| 0 <= i < tail.len() ==> #[trigger] tail[i] != '\n',
    ensures
        first_words(p + (w + tail)) == seq![w],
        first_words(p) == Seq::<Seq<char>>::empty(),
{
    let s = p + (w + tail);
    let n = s.len() as int;
    assert forall|i: int| 0 <= i < n implies s[i] != '\n' by {
        if i < p.len() {
            assert(s[i] == p[i]);
        } else if i < p.len() + w.len() {
            assert(s[i] == w[i - p.len()]);
        } else {
            assert(s[i] == tail[i - p.len() - w.len()]);
        }
    }
    lemma_line_len(s, n);
    lemma_line_len(p, p.len() as int);
    assert(s.take(n) =~= s);
    assert(p.take(p.len() as int) =~= p);
    text::white_space_is_no_word(p, w + tail);
    text::words_come_one_by_one(w, tail);
    assert(first_words(s) =~= seq![w]);
    assert(first_words(p) =~= seq![]);
}

} // verus!
