//! The name of the file that a job is printed from.
use crate::text;
use crate::unicode;
use uuid::Uuid;
use vstd::prelude::*;
use vstd::string::*;

verus! {

/// One of the digits `0` to `9` and the letters `a` to `f`.
pub open spec fn hex_digit(c: char) -> bool {
    '0' <= c <= '9' || 'a' <= c <= 'f'
}

/// The text of a random UUID: 36 characters, hyphens at the places 8, 13, 18 and 23, the version 4
/// at place 14, one of `8`, `9`, `a` and `b` at place 19, and hexadecimal digits elsewhere.
pub open spec fn uuid_text(s: Seq<char>) -> bool {
    &&& s.len() == 36
    &&& s[8] == '-' && s[13] == '-' && s[18] == '-' && s[23] == '-'
    &&& s[14] == '4'
    &&& s[19] == '8' || s[19] == '9' || s[19] == 'a' || s[19] == 'b'
    &&& forall|i: int|
        0 <= i < 36 && i != 8 && i != 13 && i != 18 && i != 23 ==> hex_digit(#[trigger] s[i])
}

/// `uuid::Uuid::new_v4`, written by its `Display`: a random UUID in hyphenated form with small
/// letters. Which one it is, is left to chance.
#[verifier::external_body]
fn random_uuid() -> (r: String)
    ensures
        uuid_text(r@),
{
    Uuid::new_v4().to_string()
}

/// The character in a file name: letters, digits, hyphens, dots and spaces stay, and any other one
/// becomes an underscore.
pub open spec fn kept(c: char, alphanumeric: bool) -> char {
    if alphanumeric || c == '-' || c == '.' || c == ' ' {
        c
    } else {
        '_'
    }
}

/// The name of a job as part of a file name.
pub open spec fn safe(name: Seq<char>) -> Seq<char> {
    text::trimmed(name.map_values(|c: char| kept(c, unicode::alphanumeric(c))))
}

/// The name of the file without its ending: the name of the job and the first eight characters of
/// the identifier, or the whole identifier if nothing is left of the name.
pub open spec fn stem(safe_name: Seq<char>, id: Seq<char>) -> Seq<char> {
    if safe_name.len() == 0 {
        id
    } else {
        safe_name + "-"@ + id.take(8)
    }
}

/// The character in a file name.
pub fn keep(c: char, alphanumeric: bool) -> (r: char)
    ensures
        r == kept(c, alphanumeric),
{
    if alphanumeric || c == '-' || c == '.' || c == ' ' {
        c
    } else {
        '_'
    }
}

/// The character separates directories or names a drive.
pub open spec fn separator(c: char) -> bool {
    c == '/' || c == '\\' || c == ':'
}

/// No character of the text is a separator.
pub open spec fn one_name(s: Seq<char>) -> bool {
    forall|i: int| 0 <= i < s.len() ==> !separator(#[trigger] s[i])
}

proof fn lemma_trimmed_start(s: Seq<char>)
    requires
        one_name(s),
    ensures
        one_name(text::trimmed_start(s)),
    decreases s.len(),
{
    if s.len() > 0 && text::white(s[0]) {
        assert(one_name(s.skip(1)));
        lemma_trimmed_start(s.skip(1));
    }
}

proof fn lemma_trimmed_end(s: Seq<char>)
    requires
        one_name(s),
    ensures
        one_name(text::trimmed_end(s)),
    decreases s.len(),
{
    if s.len() > 0 && text::white(s.last()) {
        assert(one_name(s.drop_last()));
        lemma_trimmed_end(s.drop_last());
    }
}

/// The name of a job as part of a file name. Nothing in it leads to another directory.
pub fn safe_name(name: &str) -> (r: String)
    ensures
        r@ == safe(name@),
        one_name(r@),
{
    let cs = text::chars_of(name);
    let mut out: Vec<char> = Vec::new();
    let mut i: usize = 0;
    while i < cs.len()
        invariant
            i <= cs@.len(),
            out@ == cs@.take(i as int).map_values(
                |c: char| kept(c, unicode::alphanumeric(c)),
            ),
            one_name(out@),
        decreases cs@.len() - i,
    {
        let c = cs[i];
        out.push(keep(c, c.is_alphanumeric()));
        i = i + 1;
        assert(out@ =~= cs@.take(i as int).map_values(
            |c: char| kept(c, unicode::alphanumeric(c)),
        ));
    }
    assert(cs@.take(cs@.len() as int) =~= cs@);
    let n: usize = out.len();
    let all = text::string_of(&out, 0, n);
    assert(out@.subrange(0, n as int) =~= out@);
    proof {
        lemma_trimmed_start(out@);
        lemma_trimmed_end(text::trimmed_start(out@));
    }
    text::trim(all.as_str())
}

/// The name of the file without its ending.
pub fn file_stem(safe_name: &str, id: &str) -> (r: String)
    requires
        id@.len() >= 8,
    ensures
        r@ == stem(safe_name@, id@),
{
    if safe_name.is_empty() {
        return text::owned(id);
    }
    let cs = text::chars_of(id);
    let short = text::string_of(&cs, 0, 8);
    assert(cs@.subrange(0, 8) =~= cs@.take(8));
    text::concat3(safe_name, "-", short.as_str())
}

/// The name of the file that a job with this name is printed from; jobs with the same name get
/// files of their own by a random part.
pub fn file_name(name: &str) -> (r: String)
    ensures
        exists|id: Seq<char>| uuid_text(id) && r@ == #[trigger] stem(safe(name@), id) + ".pdf"@,
{
    let id = random_uuid();
    let safe_part = safe_name(name);
    let whole = file_stem(safe_part.as_str(), id.as_str());
    let r = text::concat2(whole.as_str(), ".pdf");
    assert(uuid_text(id@) && r@ == stem(safe(name@), id@) + ".pdf"@);
    r
}

/// In a name that neither starts nor ends with a space every letter, digit, hyphen, dot and space
/// stays in its place, and an underscore takes the place of every other character.
pub proof fn a_safe_name_keeps_what_it_may(name: Seq<char>)
    requires
        name.len() > 0 ==> !text::white(name[0]) && !text::white(name[name.len() - 1]),
    ensures
        safe(name).len() == name.len(),
        forall|i: int|
            0 <= i < name.len() ==> #[trigger] safe(name)[i] == if unicode::alphanumeric(name[i])
                || name[i] == '-' || name[i] == '.' || name[i] == ' ' {
                name[i]
            } else {
                '_'
            },
{
    let m = name.map_values(|c: char| kept(c, unicode::alphanumeric(c)));
    let none = Seq::<char>::empty();
    assert(none + m + none =~= m);
    if name.len() > 0 {
        assert(m[0] == kept(name[0], unicode::alphanumeric(name[0])));
        let l = name.len() - 1;
        assert(m[l] == kept(name[l], unicode::alphanumeric(name[l])));
    }
    text::trimming_keeps_what_is_inside(none, m, none);
}

/// Spaces before and behind a name are dropped.
pub proof fn a_safe_name_has_no_outer_spaces(p: Seq<char>, name: Seq<char>, q: Seq<char>)
    requires
        forall|i: int| 0 <= i < p.len() ==> #[trigger] p[i] == ' ',
        forall|i: int| 0 <= i < q.len() ==> #[trigger] q[i] == ' ',
        name.len() > 0 ==> !text::white(name[0]) && !text::white(name[name.len() - 1]),
    ensures
        safe(p + name + q) == safe(name),
{
    let f = |c: char| kept(c, unicode::alphanumeric(c));
    let m = name.map_values(f);
    let pm = p.map_values(f);
    let qm = q.map_values(f);
    assert((p + name + q).map_values(f) =~= pm + m + qm);
    assert forall|i: int| 0 <= i < pm.len() implies text::white(#[trigger] pm[i]) by {
        assert(p[i] == ' ');
    }
    assert forall|i: int| 0 <= i < qm.len() implies text::white(#[trigger] qm[i]) by {
        assert(q[i] == ' ');
    }
    if name.len() > 0 {
        assert(m[0] == kept(name[0], unicode::alphanumeric(name[0])));
        let l = name.len() - 1;
        assert(m[l] == kept(name[l], unicode::alphanumeric(name[l])));
    }
    text::trimming_keeps_what_is_inside(pm, m, qm);
    let none = Seq::<char>::empty();
    assert(none + m + none =~= m);
    text::trimming_keeps_what_is_inside(none, m, none);
}

/// The name of a file starts with the name of its job, a hyphen and the first eight characters of
/// the identifier, and is the whole identifier if the job has no name left; files of one job whose
/// identifiers differ there have different names.
pub proof fn a_file_is_named_after_its_job(name: Seq<char>, id: Seq<char>, other: Seq<char>)
    requires
        id.len() >= 8,
        other.len() >= 8,
    ensures
        name.len() > 0 ==> stem(name, id) == name + seq!['-'] + id.subrange(0, 8),
        name.len() == 0 ==> stem(name, id) == id,
        id.subrange(0, 8) != other.subrange(0, 8) ==> stem(name, id) != stem(name, other),
{
    reveal_strlit("-");
    assert("-"@ =~= seq!['-']);
    assert(id.take(8) =~= id.subrange(0, 8));
    assert(other.take(8) =~= other.subrange(0, 8));
    if name.len() > 0 && stem(name, id) == stem(name, other) {
        let n = name.len() as int;
        assert(stem(name, id).skip(n + 1) =~= id.subrange(0, 8));
        assert(stem(name, other).skip(n + 1) =~= other.subrange(0, 8));
    }
}

} // verus!
