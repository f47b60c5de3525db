//! Text operations of the standard library that the identifier rules rest on.

use vstd::prelude::*;
use vstd::utf8::is_ascii_chars;

verus! {

/// The text that `str::trim` returns for `s`: `s` without its leading and
/// trailing Unicode whitespace.
pub uninterp spec fn trimmed_of(s: Seq<char>) -> Seq<char>;

/// The text that `str::to_uppercase` returns for `s`: its Unicode upper-case
/// mapping, which may differ from `s` in length.
pub uninterp spec fn uppercase_of(s: Seq<char>) -> Seq<char>;

/// The upper-case form of an ASCII letter; every other character is unchanged.
pub open spec fn ascii_upper(c: char) -> char {
    if 'a' <= c <= 'z' {
        ((c as u8 - 32) as u8) as char
    } else {
        c
    }
}

/// `s` with each ASCII lower-case letter replaced by its upper-case form.
pub open spec fn ascii_uppercase_of(s: Seq<char>) -> Seq<char> {
    Seq::new(s.len(), |i: int| ascii_upper(s[i]))
}

/// Calls `str::trim`. Trusted: the result is named [`trimmed_of`]; nothing
/// more is claimed of it.
#[verifier::external_body]
pub(crate) fn trim_text(s: &str) -> (r: &str)
    ensures
        r@ == trimmed_of(s@),
{
    s.trim()
}

/// Calls `str::to_uppercase`. Trusted: the result is named [`uppercase_of`];
/// nothing more is claimed of it.
#[verifier::external_body]
pub(crate) fn unicode_uppercase(s: &str) -> (r: String)
    ensures
        r@ == uppercase_of(s@),
{
    s.to_uppercase()
}

/// Calls `str::to_ascii_uppercase`. Trusted: as std documents it, the letters
/// 'a' to 'z' become 'A' to 'Z' and every other character stays as it is.
#[verifier::external_body]
pub(crate) fn ascii_uppercase(s: &str) -> (r: String)
    ensures
        r@ == ascii_uppercase_of(s@),
{
    s.to_ascii_uppercase()
}

/// Whether two texts hold the same characters.
pub fn same_text(a: &str, b: &str) -> (r: bool)
    ensures
        r == (a@ == b@),
{
    a.to_owned() == b.to_owned()
}

/// The form in which an identifier is shown: upper case. ASCII text, which is
/// what an identifier normally is, has the ASCII mapping; any other text has
/// the Unicode mapping of the standard library.
pub open spec fn display_text(s: Seq<char>) -> Seq<char> {
    if is_ascii_chars(s) {
        ascii_uppercase_of(s)
    } else {
        uppercase_of(s)
    }
}

/// Puts an identifier into the form in which it is shown.
pub fn display_form(s: &str) -> (r: String)
    ensures
        r@ == display_text(s@),
{
    if s.is_ascii() {
        ascii_uppercase(s)
    } else {
        unicode_uppercase(s)
    }
}

/// Whether two texts are equal when the case of ASCII letters is ignored.
pub open spec fn same_ignoring_ascii_case(a: Seq<char>, b: Seq<char>) -> bool {
    &&& a.len() == b.len()
    &&& forall|i: int| 0 <= i < a.len() ==> ascii_upper(#[trigger] a[i]) == ascii_upper(b[i])
}

/// A text made of digits and hyphens only has no other spelling: what equals
/// it up to the case of ASCII letters is the text itself, and only the text
/// itself has it as its ASCII upper-case form.
pub proof fn lemma_caseless_text(plain: Seq<char>, s: Seq<char>)
    requires
        forall|i: int| 0 <= i < plain.len() ==> '0' <= #[trigger] plain[i] <= '9' || plain[i] == '-',
    ensures
        same_ignoring_ascii_case(s, plain) <==> s == plain,
        ascii_uppercase_of(s) == plain <==> s == plain,
{
    if same_ignoring_ascii_case(s, plain) {
        assert forall|i: int| 0 <= i < s.len() implies s[i] == plain[i] by {
            assert(ascii_upper(s[i]) == ascii_upper(plain[i]));
            assert('0' <= plain[i] <= '9' || plain[i] == '-');
        }
        assert(s =~= plain);
    }
    if s == plain {
        assert forall|i: int| 0 <= i < s.len() implies ascii_upper(#[trigger] s[i]) == s[i] by {
            assert('0' <= plain[i] <= '9' || plain[i] == '-');
        }
        assert(ascii_uppercase_of(s) =~= plain);
    }
    if ascii_uppercase_of(s) == plain {
        assert forall|i: int| 0 <= i < s.len() implies s[i] == plain[i] by {
            assert(ascii_uppercase_of(s)[i] == ascii_upper(s[i]));
            assert('0' <= plain[i] <= '9' || plain[i] == '-');
        }
        assert(s =~= plain);
    }
}

} // verus!
