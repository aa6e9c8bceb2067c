//! Unicode character classes and case mapping taken from `std`.
//!
//! The full Unicode tables behind these functions are not restated here:
//! each result is given a name, and the ASCII behaviour, which the standard
//! library documents in a few lines, is stated exactly.

use vstd::prelude::*;

verus! {

/// ASCII letters and digits.
pub open spec fn is_ascii_alnum(c: char) -> bool {
    ('0' <= c && c <= '9') || ('A' <= c && c <= 'Z') || ('a' <= c && c <= 'z')
}

/// ASCII characters with the Unicode `White_Space` property.
pub open spec fn is_ascii_space_char(c: char) -> bool {
    c == ' ' || c == '\t' || c == '\n' || c == '\x0B' || c == '\x0C' || c == '\r'
}

/// ASCII lower-casing of one char.
pub open spec fn ascii_lower_char(c: char) -> char {
    if 'A' <= c && c <= 'Z' {
        ((c as u32) + 32) as char
    } else {
        c
    }
}

/// Every char is ASCII.
pub open spec fn all_ascii(s: Seq<char>) -> bool {
    forall|i: int| 0 <= i < s.len() ==> (#[trigger] s[i] as u32) < 128
}

/// Whether `char::is_alphanumeric` holds (Unicode `Alphabetic` or `Numeric`).
pub uninterp spec fn unicode_alphanumeric(c: char) -> bool;

/// Whether `char::is_whitespace` holds (Unicode `White_Space`).
pub uninterp spec fn unicode_whitespace(c: char) -> bool;

/// Whether `c` is whitespace as `char::is_whitespace` says: the ASCII
/// whitespace chars spelled out, any other char by the Unicode
/// `White_Space` property.
pub open spec fn is_whitespace_char(c: char) -> bool {
    if (c as u32) < 128 {
        is_ascii_space_char(c)
    } else {
        unicode_whitespace(c)
    }
}

/// What `str::to_lowercase` returns for the given characters.
pub uninterp spec fn unicode_lowercase(s: Seq<char>) -> Seq<char>;

/// Whether `c` is alphanumeric as `char::is_alphanumeric` says: ASCII
/// letters and digits spelled out, any other char by the Unicode
/// `Alphabetic` and `Numeric` properties.
pub open spec fn is_alphanumeric_char(c: char) -> bool {
    if (c as u32) < 128 {
        is_ascii_alnum(c)
    } else {
        unicode_alphanumeric(c)
    }
}

/// `char::is_alphanumeric`: true for chars with the Unicode `Alphabetic` or
/// `Numeric` property. The contract names the result and states the ASCII
/// case (letters and digits); the Unicode tables are left unstated.
#[verifier::external_body]
pub(crate) fn char_is_alphanumeric(c: char) -> (b: bool)
    ensures
        b == unicode_alphanumeric(c),
        (c as u32) < 128 ==> (b <==> is_ascii_alnum(c)),
{
    c.is_alphanumeric()
}

/// `char::is_whitespace`: true for chars with the Unicode `White_Space`
/// property. The contract names the result and states the ASCII case
/// (space, tab, line feed, vertical tab, form feed, carriage return).
#[verifier::external_body]
pub(crate) fn char_is_whitespace(c: char) -> (b: bool)
    ensures
        b == unicode_whitespace(c),
        (c as u32) < 128 ==> (b <==> is_ascii_space_char(c)),
{
    c.is_whitespace()
}

/// `str::to_lowercase`: the Unicode lowercase mapping of every char. The
/// contract names the result and states that on an all-ASCII string it is
/// the char-by-char ASCII lowercase; non-ASCII mappings are left unstated.
#[verifier::external_body]
pub(crate) fn str_to_lowercase(s: &str) -> (r: String)
    ensures
        r@ == unicode_lowercase(s@),
        all_ascii(s@) ==> r@ == s@.map_values(|c: char| ascii_lower_char(c)),
{
    s.to_lowercase()
}

/// What `unicode_width::UnicodeWidthChar::width` returns for a char.
pub uninterp spec fn unicode_char_width(c: char) -> Option<usize>;

/// What `unicode_width::UnicodeWidthStr::width` returns for a string.
pub uninterp spec fn unicode_str_width(s: Seq<char>) -> usize;

/// `unicode_width::UnicodeWidthChar::width`: the display width of a char in
/// terminal columns, `None` for control characters. The contract names the
/// result and states what the crate's source fixes without its tables:
/// C0 controls and U+007F..U+009F give `None`, printable ASCII gives 1, and a
/// width read from the tables is a `u8`, so at most 255.
#[verifier::external_body]
pub(crate) fn char_display_width(c: char) -> (r: Option<usize>)
    ensures
        r == unicode_char_width(c),
        (c as u32) < 0x20 ==> r is None,
        0x20 <= (c as u32) && (c as u32) < 0x7F ==> r == Some(1usize),
        0x7F <= (c as u32) && (c as u32) < 0xA0 ==> r is None,
        r matches Some(w) ==> w <= 255,
{
    unicode_width::UnicodeWidthChar::width(c)
}

/// `unicode_width::UnicodeWidthStr::width`: the display width of a string in
/// terminal columns. The crate computes it with grapheme-aware rules (emoji
/// and joiner sequences) that are not the plain sum of the char widths; the
/// contract names the result and states nothing more of it.
#[verifier::external_body]
pub(crate) fn str_display_width(s: &str) -> (r: usize)
    ensures
        r == unicode_str_width(s@),
{
    unicode_width::UnicodeWidthStr::width(s)
}

} // verus!
