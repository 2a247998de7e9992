//! Regular expressions: voice identifiers, speech tokens, and the words of a text.
use crate::decimal;
use crate::error::{ApiError, ErrorKind};
use crate::text;
use regex::Regex;
use vstd::prelude::*;
use vstd::string::*;

verus! {

/// A letter or digit, then at most 63 letters, digits, dots, underscores and hyphens.
pub const VOICE_ID_PATTERN: &'static str = r"^[A-Za-z0-9][A-Za-z0-9._-]{0,63}$";

/// A speech token; the group is its number.
pub const SPEECH_TOKEN_PATTERN: &'static str = r"<\|speech_(\d+)\|>";

/// The parts of a text: a tagged passage, a word, or a sign that is neither word nor white space.
pub const TOKEN_PATTERN: &'static str = r"(?i)(<en>.*?</en>)|(\w+(?:['’]\w+)*)|([^\w\s])";

/// An ASCII letter or digit.
pub open spec fn alnum(c: char) -> bool {
    'A' <= c <= 'Z' || 'a' <= c <= 'z' || '0' <= c <= '9'
}

/// The text is a voice identifier: 1 to 64 characters, the first a letter or digit, each other
/// one a letter, a digit, a dot, an underscore or a hyphen, all of them ASCII.
pub open spec fn voice_id(s: Seq<char>) -> bool {
    &&& 1 <= s.len() <= 64
    &&& alnum(s[0])
    &&& forall|i: int|
        1 <= i < s.len() ==> (alnum(#[trigger] s[i]) || s[i] == '.' || s[i] == '_' || s[i] == '-')
}

/// The number of digits that `s` starts with.
pub open spec fn digit_run(s: Seq<char>) -> nat
    decreases s.len(),
{
    if s.len() > 0 && decimal::digit(s[0]) {
        1 + digit_run(s.skip(1))
    } else {
        0
    }
}

/// What a speech token starts with.
pub open spec fn token_open() -> Seq<char> {
    seq!['<', '|', 's', 'p', 'e', 'e', 'c', 'h', '_']
}

/// The digits of the speech token that `s` starts with: `<|speech_`, one or more digits, `|>`.
pub open spec fn leading_token(s: Seq<char>) -> Option<Seq<char>> {
    if text::occurs_at(s, token_open(), 0) {
        let n = digit_run(s.skip(9)) as int;
        if n > 0 && s.len() >= 11 + n && s[9 + n] == '|' && s[10 + n] == '>' {
            Some(s.subrange(9, 9 + n))
        } else {
            None
        }
    } else {
        None
    }
}

/// The digits of all speech tokens in `s`, in order.
pub open spec fn speech_digits(s: Seq<char>) -> Seq<Seq<char>>
    decreases s.len(),
{
    if s.len() == 0 {
        seq![]
    } else {
        match leading_token(s) {
            Some(d) => seq![d] + speech_digits(s.skip(1)),
            None => speech_digits(s.skip(1)),
        }
    }
}

/// The groups of all matches as characters.
pub open spec fn groups(v: Seq<Vec<Option<String>>>) -> Seq<Seq<Option<Seq<char>>>> {
    v.map_values(|m: Vec<Option<String>>| m@.map_values(|g: Option<String>| text::opt_text(g)))
}

/// Group `k` of a match, if the match has it.
pub open spec fn group(m: Seq<Option<Seq<char>>>, k: int) -> Option<Seq<char>> {
    if 0 <= k < m.len() {
        m[k]
    } else {
        None
    }
}

/// The first groups that are rows of the digits `0` to `9`.
pub open spec fn decimal_captures(m: Seq<Seq<Option<Seq<char>>>>) -> Seq<Seq<char>>
    decreases m.len(),
{
    if m.len() == 0 {
        seq![]
    } else {
        let head = decimal_captures(m.drop_last());
        match group(m.last(), 0) {
            Some(d) if decimal::all_digits(d) => head.push(d),
            _ => head,
        }
    }
}

/// The match has a first group of one or more characters, each of them one of the digits `0` to
/// `9` or no ASCII character at all (`\d` stands for the decimal digits of every script).
pub open spec fn number_group(m: Seq<Option<Seq<char>>>) -> bool {
    match group(m, 0) {
        Some(d) => d.len() > 0 && forall|i: int|
            0 <= i < d.len() ==> (decimal::digit(#[trigger] d[i]) || d[i] > '\u{7f}'),
        None => false,
    }
}

/// The groups, from the first on, of the matches that `regex::Regex::captures_iter` finds in a
/// text, or nothing if the pattern is none.
pub uninterp spec fn regex_captures(pattern: Seq<char>, s: Seq<char>) -> Option<
    Seq<Seq<Option<Seq<char>>>>,
>;

/// `regex::Regex::is_match`, with the pattern compiled by `regex::Regex::new`. The pattern of voice
/// identifiers compiles, and matches exactly the texts that are one.
#[verifier::external_body]
fn is_match(pattern: &str, s: &str) -> (r: Option<bool>)
    requires
        pattern@ == VOICE_ID_PATTERN@,
    ensures
        r == Some(voice_id(s@)),
{
    match Regex::new(pattern) {
        Ok(re) => Some(re.is_match(s)),
        Err(_) => None,
    }
}

/// `regex::Regex::captures_iter`, with the pattern compiled by `regex::Regex::new`. The result is
/// a function of the two texts. Both patterns of this library compile. A match of the speech token
/// pattern has one group, a number; those written with the digits `0` to `9` are the digits of the
/// speech tokens in the text, in order. A match of the token pattern has three groups.
#[verifier::external_body]
pub(crate) fn captures(pattern: &str, s: &str) -> (r: Option<Vec<Vec<Option<String>>>>)
    ensures
        (match r {
            Some(v) => Some(groups(v@)),
            None => None,
        }) == regex_captures(pattern@, s@),
        pattern@ == SPEECH_TOKEN_PATTERN@ || pattern@ == TOKEN_PATTERN@ ==> r is Some,
        pattern@ == SPEECH_TOKEN_PATTERN@ ==> (r matches Some(v) ==> decimal_captures(groups(v@))
            == speech_digits(s@)),
        pattern@ == SPEECH_TOKEN_PATTERN@ ==> (r matches Some(v) ==> forall|i: int|
            0 <= i < v@.len() ==> number_group(#[trigger] groups(v@)[i])),
        pattern@ == TOKEN_PATTERN@ ==> (r matches Some(v) ==> forall|i: int|
            0 <= i < v@.len() ==> (#[trigger] groups(v@)[i]).len() == 3),
{
    let re = Regex::new(pattern).ok()?;
    let own = |m: regex::Match| m.as_str().to_string();
    let list = |c: regex::Captures| c.iter().skip(1).map(|g| g.map(own)).collect();
    Some(re.captures_iter(s).map(list).collect())
}

/// Accepts a voice identifier and refuses any other text.
pub fn validate_voice_id(id: &str) -> (r: Result<(), ApiError>)
    ensures
        r is Ok <==> voice_id(id@),
        r matches Err(e) ==> e.says(
            ErrorKind::BadRequest,
            "invalid voice id '"@ + id@ + "'"@,
        ),
{
    match is_match(VOICE_ID_PATTERN, id) {
        Some(true) => Ok(()),
        _ => Err(ApiError::BadRequest(text::concat3("invalid voice id '", id, "'"))),
    }
}

/// An identifier may be lengthened by a letter, a digit, a dot, an underscore or a hyphen as long as
/// it has less than 64 characters, and by nothing else.
pub proof fn what_lengthens_an_identifier(s: Seq<char>, c: char)
    requires
        voice_id(s),
    ensures
        voice_id(s.push(c)) <==> {
            &&& s.len() < 64
            &&& {
                ||| 'a' <= c <= 'z'
                ||| 'A' <= c <= 'Z'
                ||| '0' <= c <= '9'
                ||| c == '.'
                ||| c == '_'
                ||| c == '-'
            }
        },
{
    let t = s.push(c);
    assert(t[0] == s[0]);
    assert(t[s.len() as int] == c);
    if voice_id(t) {
        assert(alnum(t[s.len() as int]) || c == '.' || c == '_' || c == '-');
    } else if s.len() < 64 && (alnum(c) || c == '.' || c == '_' || c == '-') {
        assert forall|i: int| 1 <= i < t.len() implies (alnum(#[trigger] t[i]) || t[i] == '.' || t[i]
            == '_' || t[i] == '-') by {
            if i < s.len() {
                assert(t[i] == s[i]);
            }
        }
    }
}

/// An identifier starts with a letter or a digit, which alone is one; the empty text is none, and
/// what an identifier starts with is one.
pub proof fn what_starts_an_identifier(s: Seq<char>, c: char, n: int)
    ensures
        voice_id(seq![c]) <==> {
            ||| 'a' <= c <= 'z'
            ||| 'A' <= c <= 'Z'
            ||| '0' <= c <= '9'
        },
        !voice_id(seq![]),
        voice_id(s) && 0 < n <= s.len() ==> voice_id(s.take(n)),
{
    if voice_id(s) && 0 < n <= s.len() {
        let t = s.take(n);
        assert(t[0] == s[0]);
        assert forall|i: int| 1 <= i < t.len() implies (alnum(#[trigger] t[i]) || t[i] == '.' || t[i]
            == '_' || t[i] == '-') by {
            assert(t[i] == s[i]);
        }
    }
    assert(seq![c][0] == c);
}

} // verus!
