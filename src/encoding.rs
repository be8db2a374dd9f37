//! Text conversions that the expansion relies on: the form-urlencoded
//! serialization of `url`, and moving between strings and characters.

use vstd::prelude::*;
use vstd::utf8::{decode_utf8, encode_utf8, is_ascii_chars, is_ascii_chars_encode_utf8, valid_utf8};

verus! {

/// Bytes that the form serializer copies unchanged: ASCII letters and
/// digits, and `*`, `-`, `.`, `_`.
pub open spec fn form_unchanged(b: u8) -> bool {
    ||| b == 0x2a
    ||| b == 0x2d
    ||| b == 0x2e
    ||| b == 0x5f
    ||| 0x30 <= b <= 0x39
    ||| 0x41 <= b <= 0x5a
    ||| 0x61 <= b <= 0x7a
}

/// An uppercase hexadecimal digit.
pub open spec fn hex_upper(n: u8) -> char {
    if n < 10 {
        (0x30 + n) as char
    } else {
        (0x37 + n) as char
    }
}

/// What the form serializer writes for one byte: the byte itself, `+` for a
/// space, or `%` and two uppercase hex digits.
pub open spec fn form_encoded_byte(b: u8) -> Seq<char> {
    if form_unchanged(b) {
        seq![b as char]
    } else if b == 0x20 {
        seq!['+']
    } else {
        seq!['%', hex_upper(b / 16), hex_upper(b % 16)]
    }
}

/// The `application/x-www-form-urlencoded` serialization of a byte string.
pub open spec fn form_encoded(b: Seq<u8>) -> Seq<char>
    decreases b.len(),
{
    if b.len() == 0 {
        Seq::empty()
    } else {
        form_encoded_byte(b[0]) + form_encoded(b.drop_first())
    }
}

/// Relies on url::form_urlencoded::byte_serialize: the pieces it yields for
/// the UTF-8 bytes of `s`, concatenated, are the form serialization of those bytes.
#[verifier::external_body]
pub(crate) fn form_urlencode(s: &str) -> (r: String)
    ensures
        r@ == form_encoded(encode_utf8(s@)),
{
    url::form_urlencoded::byte_serialize(s.as_bytes()).collect()
}

/// Relies on str::chars: the characters of `s`, in order.
#[verifier::external_body]
pub(crate) fn chars_of(s: &str) -> (r: Vec<char>)
    ensures
        r@ == s@,
{
    s.chars().collect()
}

/// Relies on std::str::from_utf8: it accepts exactly the valid UTF-8 byte
/// strings, and the text it gives back is what those bytes decode to.
#[verifier::external_body]
pub(crate) fn utf8_text(b: &[u8]) -> (r: Option<&str>)
    ensures
        r is Some <==> valid_utf8(b@),
        r is Some ==> r->Some_0@ == decode_utf8(b@),
{
    std::str::from_utf8(b).ok()
}

/// Relies on String's FromIterator<&char>: a string of the characters of `v`, in order.
#[verifier::external_body]
pub(crate) fn string_of(v: &Vec<char>) -> (r: String)
    ensures
        r@ == v@,
{
    v.iter().collect()
}

/// Characters that the form serializer copies unchanged.
pub open spec fn form_unchanged_char(c: char) -> bool {
    ||| c == '*'
    ||| c == '-'
    ||| c == '.'
    ||| c == '_'
    ||| '0' <= c <= '9'
    ||| 'A' <= c <= 'Z'
    ||| 'a' <= c <= 'z'
}

/// Serializing bytes that are all copied unchanged yields those bytes as characters.
proof fn lemma_form_encoded_unchanged_bytes(b: Seq<u8>)
    requires
        forall|i: int| 0 <= i < b.len() ==> form_unchanged(#[trigger] b[i]),
    ensures
        form_encoded(b) =~= Seq::new(b.len(), |i: int| b[i] as char),
    decreases b.len(),
{
    if b.len() > 0 {
        let t = b.drop_first();
        assert forall|i: int| 0 <= i < t.len() implies form_unchanged(#[trigger] t[i]) by {
            assert(t[i] == b[i + 1]);
        }
        lemma_form_encoded_unchanged_bytes(t);
    }
}

/// Serializing a text made only of letters, digits and `*-._` leaves it as it is.
pub proof fn lemma_form_encoded_unchanged(s: Seq<char>)
    requires
        forall|i: int| 0 <= i < s.len() ==> form_unchanged_char(#[trigger] s[i]),
    ensures
        form_encoded(encode_utf8(s)) == s,
{
    assert(is_ascii_chars(s));
    is_ascii_chars_encode_utf8(s);
    let b = encode_utf8(s);
    assert forall|i: int| 0 <= i < b.len() implies form_unchanged(#[trigger] b[i]) by {
        assert(b[i] == s[i] as u8);
    }
    lemma_form_encoded_unchanged_bytes(b);
    assert forall|i: int| 0 <= i < s.len() implies (b[i] as char) == s[i] by {
        assert(b[i] == s[i] as u8);
    }
    assert(form_encoded(b) =~= s);
}

} // verus!
