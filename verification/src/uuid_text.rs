//! The textual forms of a UUID: the nil sentinel, the grammar that parses, and
//! freshly generated identifiers.

use vstd::prelude::*;
use vstd::utf8::is_ascii_chars;
use crate::text::same_text;

verus! {

/// The all-zero UUID that some drivers report to mean "no identifier assigned".
pub const NIL_UUID: &'static str = "00000000-0000-0000-0000-000000000000";

/// The nil sentinel, as a sequence of characters.
pub open spec fn nil_uuid() -> Seq<char> {
    NIL_UUID@
}

/// One of the hexadecimal digits, in either case.
pub open spec fn is_hex_digit(c: char) -> bool {
    ||| '0' <= c <= '9'
    ||| 'a' <= c <= 'f'
    ||| 'A' <= c <= 'F'
}

/// One of the hexadecimal digits `0`-`9`, `a`-`f`.
pub open spec fn is_lower_hex_digit(c: char) -> bool {
    ||| '0' <= c <= '9'
    ||| 'a' <= c <= 'f'
}

/// Whether `i` is one of the four places at which the 8-4-4-4-12 form has a hyphen.
pub open spec fn is_hyphen_position(i: int) -> bool {
    i == 8 || i == 13 || i == 18 || i == 23
}

/// The 8-4-4-4-12 form: 36 characters, hyphens at 8, 13, 18 and 23, and
/// hexadecimal digits everywhere else.
pub open spec fn is_hyphenated(s: Seq<char>) -> bool {
    &&& s.len() == 36
    &&& forall|i: int|
        0 <= i < 36 ==> if is_hyphen_position(i) {
            s[i] == '-'
        } else {
            is_hex_digit(#[trigger] s[i])
        }
}

/// The simple form: 32 hexadecimal digits.
pub open spec fn is_simple(s: Seq<char>) -> bool {
    &&& s.len() == 32
    &&& forall|i: int| 0 <= i < 32 ==> is_hex_digit(#[trigger] s[i])
}

/// The braced form: the hyphenated form between `{` and `}`.
pub open spec fn is_braced(s: Seq<char>) -> bool {
    &&& s.len() == 38
    &&& s[0] == '{'
    &&& s[37] == '}'
    &&& is_hyphenated(s.subrange(1, 37))
}

/// The nine characters `urn:uuid:`, each letter in either case.
pub open spec fn is_urn_prefix(p: Seq<char>) -> bool {
    &&& p.len() == 9
    &&& (p[0] == 'u' || p[0] == 'U')
    &&& (p[1] == 'r' || p[1] == 'R')
    &&& (p[2] == 'n' || p[2] == 'N')
    &&& p[3] == ':'
    &&& (p[4] == 'u' || p[4] == 'U')
    &&& (p[5] == 'u' || p[5] == 'U')
    &&& (p[6] == 'i' || p[6] == 'I')
    &&& (p[7] == 'd' || p[7] == 'D')
    &&& p[8] == ':'
}

/// The URN form: `urn:uuid:` followed by the hyphenated form.
pub open spec fn is_urn(s: Seq<char>) -> bool {
    &&& s.len() == 45
    &&& is_urn_prefix(s.subrange(0, 9))
    &&& is_hyphenated(s.subrange(9, 45))
}

/// The texts that parse as a UUID: the simple, hyphenated, braced and URN forms.
pub open spec fn is_uuid_text(s: Seq<char>) -> bool {
    is_simple(s) || is_hyphenated(s) || is_braced(s) || is_urn(s)
}

/// A text that can serve as a volume's identifier: it parses as a UUID and is
/// not the nil sentinel.
pub open spec fn is_usable_identifier(s: Seq<char>) -> bool {
    is_uuid_text(s) && s != nil_uuid()
}

/// What every freshly generated identifier looks like: the hyphenated form in
/// lower case, with the version digit 4 and an RFC 4122 variant digit.
pub open spec fn is_fresh_uuid_text(s: Seq<char>) -> bool {
    &&& s.len() == 36
    &&& forall|i: int|
        0 <= i < 36 ==> if is_hyphen_position(i) {
            s[i] == '-'
        } else {
            is_lower_hex_digit(#[trigger] s[i])
        }
    &&& s[14] == '4'
    &&& (s[19] == '8' || s[19] == '9' || s[19] == 'a' || s[19] == 'b')
}

/// Calls `uuid::Uuid::parse_str` and reports whether it succeeded. Trusted: the
/// parser accepts a text exactly when it has 32 bytes that are all hexadecimal
/// digits, or 36 bytes in the hyphenated form, or 38 bytes that are the
/// hyphenated form in braces, or 45 bytes that are the hyphenated form after
/// `urn:uuid:` in any letter case. Every accepted text is ASCII, so its bytes
/// are its characters.
#[verifier::external_body]
pub(crate) fn uuid_parses(s: &str) -> (ok: bool)
    ensures
        ok == is_uuid_text(s@),
{
    uuid::Uuid::parse_str(s).is_ok()
}

/// Calls `uuid::Uuid::new_v4` and formats the result with its `Display` impl.
/// Trusted: the text is the lower-case hyphenated form, and `new_v4` sets the
/// version to 4 and the variant to RFC 4122 whatever the random bits are. It
/// panics only if the operating system cannot supply random bytes.
#[verifier::external_body]
pub(crate) fn fresh_uuid_text() -> (s: String)
    ensures
        is_fresh_uuid_text(s@),
{
    uuid::Uuid::new_v4().to_string()
}

/// Whether `s` is exactly the nil sentinel.
pub fn is_nil_uuid(s: &str) -> (r: bool)
    ensures
        r == (s@ == nil_uuid()),
{
    same_text(s, NIL_UUID)
}

/// Whether `s` parses as a UUID and is not the nil sentinel.
pub fn usable_identifier(s: &str) -> (r: bool)
    ensures
        r == is_usable_identifier(s@),
{
    uuid_parses(s) && !is_nil_uuid(s)
}

/// A fresh identifier is never the nil sentinel, and it parses as a UUID.
pub proof fn lemma_fresh_is_usable(s: Seq<char>)
    requires
        is_fresh_uuid_text(s),
    ensures
        is_hyphenated(s),
        is_usable_identifier(s),
{
    reveal_strlit("00000000-0000-0000-0000-000000000000");
    assert(nil_uuid()[14] == '0');
    assert forall|i: int| 0 <= i < 36 implies if is_hyphen_position(i) {
        s[i] == '-'
    } else {
        is_hex_digit(#[trigger] s[i])
    } by {
        if !is_hyphen_position(i) {
            assert(is_lower_hex_digit(s[i]));
        }
    }
}

/// A text that parses as a UUID is ASCII.
pub proof fn lemma_uuid_text_is_ascii(s: Seq<char>)
    requires
        is_uuid_text(s),
    ensures
        is_ascii_chars(s),
{
    assert forall|i: int| 0 <= i < s.len() implies '\0' <= #[trigger] s[i] <= '\u{7f}' by {
        if is_simple(s) {
            assert(is_hex_digit(s[i]));
        } else if is_hyphenated(s) {
            if !is_hyphen_position(i) {
                assert(is_hex_digit(s[i]));
            }
        } else if is_braced(s) {
            if 1 <= i < 37 {
                let inner = s.subrange(1, 37);
                assert(inner[i - 1] == s[i]);
                if !is_hyphen_position(i - 1) {
                    assert(is_hex_digit(inner[i - 1]));
                }
            }
        } else {
            if i < 9 {
                assert(s.subrange(0, 9)[i] == s[i]);
            } else {
                let inner = s.subrange(9, 45);
                assert(inner[i - 9] == s[i]);
                if !is_hyphen_position(i - 9) {
                    assert(is_hex_digit(inner[i - 9]));
                }
            }
        }
    }
}

} // verus!
