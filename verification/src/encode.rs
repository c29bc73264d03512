//! Percent-encoding of URL components, made by the `urlencoding` crate.

use vstd::prelude::*;
use vstd::utf8::encode_utf8;

verus! {

/// A byte that `urlencoding` leaves as it is: an ASCII letter or digit, or
/// one of `-`, `.`, `_`, `~`.
pub open spec fn is_unreserved_byte(b: u8) -> bool {
    ||| (48 <= b && b <= 57)
    ||| (65 <= b && b <= 90)
    ||| (97 <= b && b <= 122)
    ||| b == 45
    ||| b == 46
    ||| b == 95
    ||| b == 126
}

/// The same set, as characters.
pub open spec fn is_unreserved_char(c: char) -> bool {
    ||| ('0' <= c && c <= '9')
    ||| ('A' <= c && c <= 'Z')
    ||| ('a' <= c && c <= 'z')
    ||| c == '-'
    ||| c == '.'
    ||| c == '_'
    ||| c == '~'
}

/// A character that may stand in an encoded component.
pub open spec fn is_url_safe(c: char) -> bool {
    is_unreserved_char(c) || c == '%'
}

/// The upper-case hexadecimal digit for a value below sixteen.
pub open spec fn hex_upper(v: int) -> char {
    if v < 10 {
        (v + 48) as char
    } else {
        (v + 55) as char
    }
}

/// How one byte is written: itself when unreserved, else `%` and two
/// upper-case hexadecimal digits.
pub open spec fn escape_byte(b: u8) -> Seq<char> {
    if is_unreserved_byte(b) {
        seq![b as char]
    } else {
        seq!['%', hex_upper(b as int / 16), hex_upper(b as int % 16)]
    }
}

/// The percent-encoding of a byte sequence.
pub open spec fn percent_encoded(bytes: Seq<u8>) -> Seq<char>
    decreases bytes.len(),
{
    if bytes.len() == 0 {
        Seq::empty()
    } else {
        percent_encoded(bytes.drop_last()) + escape_byte(bytes.last())
    }
}

/// The percent-encoding of the UTF-8 bytes of a text.
pub open spec fn url_encoded(s: Seq<char>) -> Seq<char> {
    percent_encoded(encode_utf8(s))
}

/// `urlencoding::encode`: every UTF-8 byte of `s` but the unreserved ones is
/// written as `%` and two upper-case hexadecimal digits.
#[verifier::external_body]
pub fn url_encode(s: &str) -> (r: String)
    ensures
        r@ == url_encoded(s@),
{
    urlencoding::encode(s).into_owned()
}

proof fn lemma_escape_byte_safe(b: u8)
    ensures
        forall|i: int| 0 <= i < escape_byte(b).len() ==> #[trigger] is_url_safe(escape_byte(b)[i]),
{
    if is_unreserved_byte(b) {
        assert((b as char) as int == b as int);
    } else {
        let hi = b as int / 16;
        let lo = b as int % 16;
        assert(0 <= hi < 16 && 0 <= lo < 16);
        assert(hex_upper(hi) as int == if hi < 10 { hi + 48 } else { hi + 55 });
        assert(hex_upper(lo) as int == if lo < 10 { lo + 48 } else { lo + 55 });
    }
}

/// Whatever the input, an encoded component holds only unreserved
/// characters and `%`.
pub proof fn lemma_encoded_is_url_safe(bytes: Seq<u8>)
    ensures
        forall|i: int|
            0 <= i < percent_encoded(bytes).len() ==> #[trigger] is_url_safe(
                percent_encoded(bytes)[i],
            ),
    decreases bytes.len(),
{
    if bytes.len() > 0 {
        lemma_encoded_is_url_safe(bytes.drop_last());
        lemma_escape_byte_safe(bytes.last());
        let a = percent_encoded(bytes.drop_last());
        let e = escape_byte(bytes.last());
        assert forall|i: int|
            0 <= i < percent_encoded(bytes).len() implies #[trigger] is_url_safe(
            percent_encoded(bytes)[i],
        ) by {
            if i < a.len() {
                assert(percent_encoded(bytes)[i] == a[i]);
            } else {
                assert(percent_encoded(bytes)[i] == e[i - a.len()]);
            }
        }
    }
}

proof fn lemma_unreserved_bytes_kept(bytes: Seq<u8>)
    requires
        forall|i: int| 0 <= i < bytes.len() ==> #[trigger] is_unreserved_byte(bytes[i]),
    ensures
        percent_encoded(bytes) =~= Seq::new(bytes.len(), |i: int| bytes[i] as char),
    decreases bytes.len(),
{
    if bytes.len() > 0 {
        assert(is_unreserved_byte(bytes.last()));
        lemma_unreserved_bytes_kept(bytes.drop_last());
    }
}

/// A text made of unreserved ASCII characters is left as it is.
pub proof fn lemma_unreserved_text_kept(s: Seq<char>)
    requires
        forall|i: int| 0 <= i < s.len() ==> #[trigger] is_unreserved_char(s[i]),
    ensures
        url_encoded(s) == s,
{
    assert forall|i: int| 0 <= i < s.len() implies '\0' <= #[trigger] s[i] <= '\u{7f}' by {
        assert(is_unreserved_char(s[i]));
    }
    assert(vstd::utf8::is_ascii_chars(s));
    vstd::utf8::is_ascii_chars_encode_utf8(s);
    let bytes = encode_utf8(s);
    assert forall|i: int| 0 <= i < bytes.len() implies #[trigger] is_unreserved_byte(bytes[i]) by {
        assert(s[i] as u8 == bytes[i]);
        assert(is_unreserved_char(s[i]));
    }
    lemma_unreserved_bytes_kept(bytes);
    assert forall|i: int| 0 <= i < s.len() implies (bytes[i] as char) == s[i] by {
        assert(s[i] as u8 == bytes[i]);
    }
    assert(url_encoded(s) =~= s);
}

} // verus!
