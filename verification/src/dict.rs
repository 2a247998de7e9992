//! The pronunciation dictionary: a file of strings and two sorted tables.
//!
//! The file starts with `SEAP` and eight numbers of four bytes. Strings stand behind the head, each
//! ended by a zero byte, and are found through a list of offsets. A row of the merged table is the
//! number of a word and that of its pronunciation; a row of the common table is the number of a
//! word and those of its Vietnamese and its English pronunciation.
use crate::bytes;
use crate::order;
use crate::text;
use crate::unicode;
use vstd::prelude::*;
use vstd::slice::*;
use vstd::utf8::*;

verus! {

/// The file is no dictionary.
#[derive(Clone, Copy, Debug, PartialEq, Eq, Structural)]
pub enum DictError {
    InvalidHeader,
}

/// A dictionary file.
#[derive(Debug)]
pub struct PhonemeDict {
    data: Vec<u8>,
    string_count: u32,
    merged_count: u32,
    common_count: u32,
    string_offsets_pos: u32,
    merged_pos: u32,
    common_pos: u32,
}

/// The file has a head and starts with `SEAP`.
pub open spec fn valid_file(d: Seq<u8>) -> bool {
    d.len() >= 32 && d[0] == 0x53 && d[1] == 0x45 && d[2] == 0x41 && d[3] == 0x50
}

/// The number of strings.
pub open spec fn string_count(d: Seq<u8>) -> nat {
    bytes::le4_at(d, 8)
}

/// The number of rows of the merged table.
pub open spec fn merged_count(d: Seq<u8>) -> nat {
    bytes::le4_at(d, 12)
}

/// The number of rows of the common table.
pub open spec fn common_count(d: Seq<u8>) -> nat {
    bytes::le4_at(d, 16)
}

/// Where the list of string offsets starts.
pub open spec fn offsets_pos(d: Seq<u8>) -> nat {
    bytes::le4_at(d, 20)
}

/// Where the merged table starts.
pub open spec fn merged_pos(d: Seq<u8>) -> nat {
    bytes::le4_at(d, 24)
}

/// Where the common table starts.
pub open spec fn common_pos(d: Seq<u8>) -> nat {
    bytes::le4_at(d, 28)
}

/// The bytes before the first zero byte.
pub open spec fn before_zero(b: Seq<u8>) -> Seq<u8>
    decreases b.len(),
{
    if b.len() == 0 || b[0] == 0 {
        seq![]
    } else {
        seq![b[0]] + before_zero(b.skip(1))
    }
}

/// String `id`; it is empty where the number, the place of its offset or the offset lies outside,
/// and where its bytes are not valid UTF-8.
pub open spec fn string_at(d: Seq<u8>, id: nat) -> Seq<char> {
    let at = offsets_pos(d) + 4 * id;
    let start = 32 + bytes::le4_at(d, at as int);
    if id >= string_count(d) || at + 4 > d.len() || start >= d.len() {
        seq![]
    } else {
        unicode::decoded(before_zero(d.skip(start as int)))
    }
}

/// Where a row of a table stands.
pub open spec fn row(base: int, width: int, i: int) -> int {
    base + width * i
}

/// The word of the row at `p`.
pub open spec fn word_at(d: Seq<u8>, p: int) -> Seq<char> {
    string_at(d, bytes::le4_at(d, p))
}

/// Where a binary search among the rows `lo` to `hi` finds the word. A row that does not lie in
/// the file ends the search.
pub open spec fn search(
    d: Seq<u8>,
    base: int,
    width: int,
    word: Seq<char>,
    lo: int,
    hi: int,
) -> Option<int>
    decreases hi - lo + 1,
{
    if lo < 0 || lo > hi {
        None
    } else {
        let mid = (lo + hi) / 2;
        let p = row(base, width, mid);
        if p + width > d.len() {
            None
        } else if word_at(d, p) == word {
            Some(p)
        } else if order::less(word_at(d, p), word) {
            search(d, base, width, word, mid + 1, hi)
        } else {
            search(d, base, width, word, lo, mid - 1)
        }
    }
}

/// The last row of a table of `count` rows. A table of more than 2147483647 rows counts as empty.
pub open spec fn last_row(count: nat) -> int {
    if count <= i32::MAX {
        count - 1
    } else {
        -1
    }
}

/// The pronunciation of a word in the merged table.
pub open spec fn merged(d: Seq<u8>, word: Seq<char>) -> Option<Seq<char>> {
    match search(d, merged_pos(d) as int, 8, word, 0, last_row(merged_count(d))) {
        Some(p) => Some(string_at(d, bytes::le4_at(d, p + 4))),
        None => None,
    }
}

/// The Vietnamese and the English pronunciation of a word in the common table.
pub open spec fn common(d: Seq<u8>, word: Seq<char>) -> Option<(Seq<char>, Seq<char>)> {
    match search(d, common_pos(d) as int, 12, word, 0, last_row(common_count(d))) {
        Some(p) => Some(
            (string_at(d, bytes::le4_at(d, p + 4)), string_at(d, bytes::le4_at(d, p + 8))),
        ),
        None => None,
    }
}

/// All rows lie in the file, and each word comes before that of every later row.
pub open spec fn sorted_table(d: Seq<u8>, base: int, width: int, count: int) -> bool {
    &&& base + width * count <= d.len()
    &&& forall|i: int, j: int|
        #![trigger row(base, width, i), row(base, width, j)]
        0 <= i < j < count ==> order::less(
            word_at(d, row(base, width, i)),
            word_at(d, row(base, width, j)),
        )
}

impl PhonemeDict {
    /// The bytes of the file.
    pub closed spec fn bytes(self) -> Seq<u8> {
        self.data@
    }

    /// The numbers are those in the head of the file.
    pub closed spec fn wf(self) -> bool {
        &&& valid_file(self.data@)
        &&& self.string_count == string_count(self.data@)
        &&& self.merged_count == merged_count(self.data@)
        &&& self.common_count == common_count(self.data@)
        &&& self.string_offsets_pos == offsets_pos(self.data@)
        &&& self.merged_pos == merged_pos(self.data@)
        &&& self.common_pos == common_pos(self.data@)
    }

    /// Takes the bytes of a dictionary file.
    pub fn open(data: Vec<u8>) -> (r: Result<PhonemeDict, DictError>)
        ensures
            match r {
                Ok(dict) => valid_file(data@) && dict.wf() && dict.bytes() == data@,
                Err(e) => !valid_file(data@) && e == DictError::InvalidHeader,
            },
    {
        if data.len() < 32 || data[0] != 0x53 || data[1] != 0x45 || data[2] != 0x41 || data[3]
            != 0x50 {
            return Err(DictError::InvalidHeader);
        }
        let string_count = bytes::read_le4(&data, 8);
        let merged_count = bytes::read_le4(&data, 12);
        let common_count = bytes::read_le4(&data, 16);
        let string_offsets_pos = bytes::read_le4(&data, 20);
        let merged_pos = bytes::read_le4(&data, 24);
        let common_pos = bytes::read_le4(&data, 28);
        Ok(
            PhonemeDict {
                data,
                string_count,
                merged_count,
                common_count,
                string_offsets_pos,
                merged_pos,
                common_pos,
            },
        )
    }

    /// String `id` of the file.
    fn get_string(&self, id: u32) -> (r: &str)
        requires
            self.wf(),
        ensures
            r@ == string_at(self.bytes(), id as nat),
    {
        proof {
            reveal_strlit("");
            assert(""@ =~= seq![]);
        }
        let len: usize = self.data.len();
        if id >= self.string_count {
            return "";
        }
        let at: u64 = self.string_offsets_pos as u64 + id as u64 * 4;
        if at + 4 > len as u64 {
            return "";
        }
        let start: u64 = 32 + bytes::read_le4(&self.data, at as usize) as u64;
        if start >= len as u64 {
            return "";
        }
        let from: usize = start as usize;
        let mut end: usize = from;
        let ghost tail = self.data@.skip(from as int);
        assert(self.data@.subrange(from as int, from as int) + before_zero(tail) =~= before_zero(tail));
        while end < len && self.data[end] != 0
            invariant
                from <= end <= len,
                len == self.data@.len(),
                tail == self.data@.skip(from as int),
                self.data@.subrange(from as int, end as int) + before_zero(
                    self.data@.skip(end as int),
                ) == before_zero(tail),
            decreases len - end,
        {
            let ghost rest = self.data@.skip(end as int);
            assert(rest.skip(1) =~= self.data@.skip(end + 1));
            assert(self.data@.subrange(from as int, end + 1) + before_zero(rest.skip(1))
                =~= self.data@.subrange(from as int, end as int) + (seq![rest[0]] + before_zero(
                rest.skip(1),
            )));
            end = end + 1;
        }
        assert(before_zero(self.data@.skip(end as int)) =~= seq![]);
        assert(self.data@.subrange(from as int, end as int) =~= before_zero(tail));
        unicode::decode(slice_subrange(self.data.as_slice(), from, end))
    }

    /// Where a binary search finds the word in a table.
    fn find(&self, base: u32, width: u32, count: u32, word: &str) -> (r: Option<usize>)
        requires
            self.wf(),
            4 <= width <= 12,
        ensures
            match r {
                Some(p) => search(
                    self.bytes(),
                    base as int,
                    width as int,
                    word@,
                    0,
                    last_row(count as nat),
                ) == Some(p as int) && p + width <= self.bytes().len(),
                None => search(
                    self.bytes(),
                    base as int,
                    width as int,
                    word@,
                    0,
                    last_row(count as nat),
                ) is None,
            },
    {
        if count > 0x7fff_ffff {
            return None;
        }
        let size: usize = self.data.len();
        let len: u64 = size as u64;
        let mut low: i64 = 0;
        let mut high: i64 = count as i64 - 1;
        while low <= high
            invariant
                self.wf(),
                4 <= width <= 12,
                count <= 0x7fff_ffff,
                len == size,
                len == self.bytes().len(),
                0 <= low <= high + 1,
                high < count,
                search(self.bytes(), base as int, width as int, word@, low as int, high as int)
                    == search(
                    self.bytes(),
                    base as int,
                    width as int,
                    word@,
                    0,
                    last_row(count as nat),
                ),
            decreases high - low + 1,
        {
            let mid: i64 = (low + high) / 2;
            assert(0 <= mid * width <= 12 * 0x7fff_ffff) by (nonlinear_arith)
                requires
                    0 <= mid <= 0x7fff_ffff,
                    4 <= width <= 12,
            ;
            let step: u64 = mid as u64 * width as u64;
            assert(step == width * mid) by (nonlinear_arith)
                requires
                    step == mid * width,
            ;
            let p: u64 = base as u64 + step;
            assert(p == row(base as int, width as int, mid as int));
            if p + width as u64 > len {
                return None;
            }
            let at: usize = p as usize;
            let current = self.get_string(bytes::read_le4(&self.data, at));
            if text::same(current, word) {
                return Some(at);
            }
            if order::is_less(current, word) {
                low = mid + 1;
            } else {
                high = mid - 1;
            }
        }
        None
    }

    /// The pronunciation of a word in the merged table.
    pub fn lookup_merged(&self, word: &str) -> (r: Option<&str>)
        requires
            self.wf(),
        ensures
            text::opt_str(r) == merged(self.bytes(), word@),
    {
        match self.find(self.merged_pos, 8, self.merged_count, word) {
            Some(p) => {
                let _n: usize = self.data.len();
                Some(self.get_string(bytes::read_le4(&self.data, p + 4)))
            },
            None => None,
        }
    }

    /// The Vietnamese and the English pronunciation of a word in the common table.
    pub fn lookup_common(&self, word: &str) -> (r: Option<(&str, &str)>)
        requires
            self.wf(),
        ensures
            match r {
                Some(pair) => common(self.bytes(), word@) == Some((pair.0@, pair.1@)),
                None => common(self.bytes(), word@) is None,
            },
    {
        match self.find(self.common_pos, 12, self.common_count, word) {
            Some(p) => {
                let _n: usize = self.data.len();
                let vi = self.get_string(bytes::read_le4(&self.data, p + 4));
                let en = self.get_string(bytes::read_le4(&self.data, p + 8));
                Some((vi, en))
            },
            None => None,
        }
    }
}

/// What a search finds is a row in its range that has the word.
pub proof fn search_is_sound(
    d: Seq<u8>,
    base: int,
    width: int,
    word: Seq<char>,
    lo: int,
    hi: int,
)
    requires
        0 <= lo,
    ensures
        search(d, base, width, word, lo, hi) matches Some(p) ==> word_at(d, p) == word && p + width
            <= d.len() && exists|i: int| lo <= i <= hi && p == #[trigger] row(base, width, i),
    decreases hi - lo + 1,
{
    if lo <= hi {
        let mid = (lo + hi) / 2;
        let p = row(base, width, mid);
        if p + width <= d.len() && word_at(d, p) != word {
            if order::less(word_at(d, p), word) {
                search_is_sound(d, base, width, word, mid + 1, hi);
            } else {
                search_is_sound(d, base, width, word, lo, mid - 1);
            }
        }
    }
}

/// In a sorted table a search finds every word that a row in its range has, and finds it there.
pub proof fn search_is_complete(
    d: Seq<u8>,
    base: int,
    width: int,
    count: int,
    word: Seq<char>,
    lo: int,
    hi: int,
    k: int,
)
    requires
        width > 0,
        sorted_table(d, base, width, count),
        0 <= lo <= k <= hi < count,
        word_at(d, row(base, width, k)) == word,
    ensures
        search(d, base, width, word, lo, hi) == Some(row(base, width, k)),
    decreases hi - lo + 1,
{
    let mid = (lo + hi) / 2;
    let p = row(base, width, mid);
    let q = row(base, width, k);
    assert(p + width <= base + width * count) by (nonlinear_arith)
        requires
            p == base + width * mid,
            mid + 1 <= count,
            width > 0,
    ;
    if mid == k {
    } else if mid < k {
        assert(order::less(word_at(d, p), word_at(d, q)));
        order::less_irreflexive(word);
        search_is_complete(d, base, width, count, word, mid + 1, hi, k);
    } else {
        assert(order::less(word_at(d, q), word_at(d, p)));
        order::less_irreflexive(word);
        if order::less(word_at(d, p), word) {
            order::less_transitive(word_at(d, p), word, word_at(d, p));
            order::less_irreflexive(word_at(d, p));
        }
        search_is_complete(d, base, width, count, word, lo, mid - 1, k);
    }
}

/// In a sorted merged table a word is found exactly if some row has it, and then with the
/// pronunciation of that row.
pub proof fn merged_finds_exactly_the_rows(d: Seq<u8>, word: Seq<char>)
    requires
        merged_count(d) <= i32::MAX,
        sorted_table(d, merged_pos(d) as int, 8, merged_count(d) as int),
    ensures
        merged(d, word) is Some <==> exists|i: int|
            0 <= i < merged_count(d) && word_at(d, #[trigger] row(merged_pos(d) as int, 8, i))
                == word,
        forall|i: int|
            0 <= i < merged_count(d) && word_at(d, #[trigger] row(merged_pos(d) as int, 8, i))
                == word ==> merged(d, word) == Some(
                string_at(d, bytes::le4_at(d, row(merged_pos(d) as int, 8, i) + 4)),
            ),
{
    let base = merged_pos(d) as int;
    let n = merged_count(d) as int;
    search_is_sound(d, base, 8, word, 0, n - 1);
    assert forall|i: int| 0 <= i < n && word_at(d, #[trigger] row(base, 8, i)) == word implies merged(
        d,
        word,
    ) == Some(string_at(d, bytes::le4_at(d, row(base, 8, i) + 4))) by {
        search_is_complete(d, base, 8, n, word, 0, n - 1, i);
    }
}

/// In a sorted common table a word is found exactly if some row has it, and then with the
/// pronunciations of that row.
pub proof fn common_finds_exactly_the_rows(d: Seq<u8>, word: Seq<char>)
    requires
        common_count(d) <= i32::MAX,
        sorted_table(d, common_pos(d) as int, 12, common_count(d) as int),
    ensures
        common(d, word) is Some <==> exists|i: int|
            0 <= i < common_count(d) && word_at(d, #[trigger] row(common_pos(d) as int, 12, i))
                == word,
        forall|i: int|
            0 <= i < common_count(d) && word_at(d, #[trigger] row(common_pos(d) as int, 12, i))
                == word ==> common(d, word) == Some(
                (
                    string_at(d, bytes::le4_at(d, row(common_pos(d) as int, 12, i) + 4)),
                    string_at(d, bytes::le4_at(d, row(common_pos(d) as int, 12, i) + 8)),
                ),
            ),
{
    let base = common_pos(d) as int;
    let n = common_count(d) as int;
    search_is_sound(d, base, 12, word, 0, n - 1);
    assert forall|i: int|
        0 <= i < n && word_at(d, #[trigger] row(base, 12, i)) == word implies common(d, word)
        == Some(
        (
            string_at(d, bytes::le4_at(d, row(base, 12, i) + 4)),
            string_at(d, bytes::le4_at(d, row(base, 12, i) + 8)),
        ),
    ) by {
        search_is_complete(d, base, 12, n, word, 0, n - 1, i);
    }
}

proof fn lemma_before_zero(b: Seq<u8>, rest: Seq<u8>)
    requires
        forall|i: int| 0 <= i < b.len() ==> #[trigger] b[i] != 0,
        rest.len() == 0 || rest[0] == 0,
    ensures
        before_zero(b + rest) == b,
    decreases b.len(),
{
    let s = b + rest;
    if b.len() == 0 {
        assert(s =~= rest);
        assert(b =~= seq![]);
    } else {
        let t = b.skip(1);
        assert(s[0] == b[0]);
        assert(s.skip(1) =~= t + rest);
        assert forall|i: int| 0 <= i < t.len() implies #[trigger] t[i] != 0 by {
            assert(t[i] == b[i + 1]);
        }
        lemma_before_zero(t, rest);
        assert(b =~= seq![b[0]] + t);
    }
}

/// A string is read from the place that its offset gives, up to the next zero byte or the end of the
/// file; what stands around it does not matter.
pub proof fn a_string_is_read_at_its_place(
    d: Seq<u8>,
    id: nat,
    head: Seq<u8>,
    s: Seq<char>,
    rest: Seq<u8>,
)
    requires
        id < bytes::le4_at(d, 8),
        bytes::le4_at(d, 20) + 4 * id + 4 <= d.len(),
        head.len() == 32 + bytes::le4_at(d, (bytes::le4_at(d, 20) + 4 * id) as int),
        d == head + (encode_utf8(s) + rest),
        head.len() < d.len(),
        forall|i: int| 0 <= i < encode_utf8(s).len() ==> #[trigger] encode_utf8(s)[i] != 0,
        rest.len() == 0 || rest[0] == 0,
    ensures
        string_at(d, id) == s,
{
    let b = encode_utf8(s);
    assert(d.skip(head.len() as int) =~= b + rest);
    lemma_before_zero(b, rest);
    encode_utf8_valid_utf8(s);
    encode_utf8_decode_utf8(s);
}

/// The head of a file: how many strings, rows of the merged table and rows of the common table there
/// are, and where the offsets of the strings and the two tables start.
pub proof fn what_the_head_tells(d: Seq<u8>, word: Seq<char>)
    ensures
        string_count(d) == bytes::le4_at(d, 8),
        merged_count(d) == bytes::le4_at(d, 12),
        common_count(d) == bytes::le4_at(d, 16),
        offsets_pos(d) == bytes::le4_at(d, 20),
        merged_pos(d) == bytes::le4_at(d, 24),
        common_pos(d) == bytes::le4_at(d, 28),
        valid_file(d) <==> d.len() >= 32 && d.subrange(0, 4) == seq![0x53u8, 0x45, 0x41, 0x50],
        merged_count(d) == 0 || merged_count(d) > 0x7fff_ffff ==> merged(d, word) is None,
        common_count(d) == 0 || common_count(d) > 0x7fff_ffff ==> common(d, word) is None,
{
    if d.len() >= 32 {
        let h = d.subrange(0, 4);
        assert(h[0] == d[0] && h[1] == d[1] && h[2] == d[2] && h[3] == d[3]);
        if valid_file(d) {
            assert(h =~= seq![0x53u8, 0x45, 0x41, 0x50]);
        }
    }
}

} // verus!
