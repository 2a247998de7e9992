//! Character tables of the standard library, and the decoding of UTF-8.
use vstd::prelude::*;
use vstd::string::*;
use vstd::utf8::*;

verus! {

/// The lower-case form of a text, as `str::to_lowercase` gives it.
pub uninterp spec fn lowercase(s: Seq<char>) -> Seq<char>;

/// What `char::is_alphanumeric` says of a character.
pub uninterp spec fn alphanumeric(c: char) -> bool;

/// `str::to_lowercase`: the lower-case form is a function of the text, by the Unicode tables of
/// the standard library.
pub assume_specification[ str::to_lowercase ](s: &str) -> (r: String)
    ensures
        r@ == lowercase(s@),
;

/// `char::is_alphanumeric`: the answer is a function of the character, by the Unicode tables of
/// the standard library; of the ASCII characters it is true of the letters and digits.
pub assume_specification[ char::is_alphanumeric ](c: char) -> (r: bool)
    ensures
        r == alphanumeric(c),
        c <= '\u{7f}' ==> r == ('0' <= c <= '9' || 'A' <= c <= 'Z' || 'a' <= c <= 'z'),
;

/// The text that `String::from_utf8_lossy` makes of bytes.
pub uninterp spec fn utf8_lossy(b: Seq<u8>) -> Seq<char>;

/// `String::from_utf8_lossy`: the text is a function of the bytes; bytes that are valid UTF-8
/// become the text that they encode.
#[verifier::external_body]
pub(crate) fn lossy(b: &Vec<u8>) -> (r: String)
    ensures
        r@ == utf8_lossy(b@),
        valid_utf8(b@) ==> r@ == decode_utf8(b@),
{
    String::from_utf8_lossy(b).into_owned()
}

/// `char::from_u32`: every number that is a code point and no surrogate becomes the character with
/// that code point.
pub assume_specification[ char::from_u32 ](i: u32) -> (r: Option<char>)
    ensures
        r is Some <==> (i <= 0xd7ff || 0xe000 <= i <= 0x10ffff),
        r matches Some(c) ==> c as u32 == i,
;

/// The error of `std::str::from_utf8`.
#[verifier::external_type_specification]
#[verifier::external_body]
pub struct ExUtf8Error(std::str::Utf8Error);

/// `std::str::from_utf8`: bytes that are valid UTF-8 become the string with that encoding, other
/// bytes are refused.
pub assume_specification[ std::str::from_utf8 ](v: &[u8]) -> (r: Result<
    &str,
    std::str::Utf8Error,
>)
    ensures
        r is Ok <==> valid_utf8(v@),
        r matches Ok(s) ==> s.spec_bytes() == v@,
;

/// The text that the bytes encode, or the empty one if they are not valid UTF-8.
pub open spec fn decoded(b: Seq<u8>) -> Seq<char> {
    if valid_utf8(b) {
        decode_utf8(b)
    } else {
        seq![]
    }
}

/// The text that the bytes encode, or the empty one if they are not valid UTF-8.
pub fn decode(b: &[u8]) -> (r: &str)
    ensures
        r@ == decoded(b@),
{
    match std::str::from_utf8(b) {
        Ok(s) => {
            proof {
                encode_utf8_decode_utf8(s@);
            }
            s
        },
        Err(_) => {
            proof {
                reveal_strlit("");
            }
            let e: &str = "";
            assert(e@ =~= seq![]);
            e
        },
    }
}

/// The bytes of a text become the text, and bytes that encode none the empty one.
pub proof fn decoding_undoes_encoding(s: Seq<char>, b: Seq<u8>)
    ensures
        decoded(encode_utf8(s)) == s,
        !valid_utf8(b) ==> decoded(b).len() == 0,
{
    encode_utf8_valid_utf8(s);
    encode_utf8_decode_utf8(s);
}

} // verus!
