//! Character and string primitives of the standard library that the parsers
//! rely on: whitespace, stated in full; alphanumeric characters and lower-case
//! mapping, stated for ASCII and named beyond it, behind trusted wrappers.

use vstd::prelude::*;

verus! {

/// Whether `c` has the Unicode `White_Space` property, which is what
/// `char::is_whitespace` reports: the 25 code points U+0009..=U+000D, U+0020,
/// U+0085, U+00A0, U+1680, U+2000..=U+200A, U+2028, U+2029, U+202F, U+205F and
/// U+3000 listed in the Unicode Character Database (PropList.txt).
pub open spec fn is_whitespace(c: char) -> bool {
    ||| ('\u{9}' <= c && c <= '\u{d}')
    ||| c == ' '
    ||| c == '\u{85}'
    ||| c == '\u{a0}'
    ||| c == '\u{1680}'
    ||| ('\u{2000}' <= c && c <= '\u{200a}')
    ||| c == '\u{2028}'
    ||| c == '\u{2029}'
    ||| c == '\u{202f}'
    ||| c == '\u{205f}'
    ||| c == '\u{3000}'
}

/// An ASCII character.
pub open spec fn is_ascii_char(c: char) -> bool {
    c <= '\u{7f}'
}

/// Text made of ASCII characters only.
pub open spec fn all_ascii(s: Seq<char>) -> bool {
    forall|i: int| 0 <= i < s.len() ==> is_ascii_char(#[trigger] s[i])
}

/// An ASCII letter or digit.
pub open spec fn is_ascii_alnum(c: char) -> bool {
    ('a' <= c && c <= 'z') || ('A' <= c && c <= 'Z') || ('0' <= c && c <= '9')
}

/// The ASCII lower-case form of a character: `A..=Z` become `a..=z`, every
/// other character stays.
pub open spec fn ascii_lower(c: char) -> char {
    if 'A' <= c && c <= 'Z' {
        ((c as int) + 32) as char
    } else {
        c
    }
}

/// What `char::is_alphanumeric` returns for characters beyond ASCII.
pub uninterp spec fn is_alphanumeric_beyond_ascii(c: char) -> bool;

/// What `str::to_lowercase` returns for text that is not all ASCII.
pub uninterp spec fn lowercase_beyond_ascii(s: Seq<char>) -> Seq<char>;

/// What `char::is_alphanumeric` returns: whether the character is alphabetic
/// or numeric in the Unicode sense.  Among ASCII characters exactly the letters
/// have the `Alphabetic` property and exactly the digits a numeric general
/// category, so there it is `is_ascii_alnum`.
pub open spec fn is_alphanumeric(c: char) -> bool {
    if is_ascii_char(c) {
        is_ascii_alnum(c)
    } else {
        is_alphanumeric_beyond_ascii(c)
    }
}

/// What `str::to_lowercase` returns for a string with the given characters:
/// its lower-case mapping under Unicode rules (which are not character-wise
/// beyond ASCII).  On ASCII text the mapping turns `A..=Z` into `a..=z` and
/// keeps every other character.
pub open spec fn lowercase(s: Seq<char>) -> Seq<char> {
    if all_ascii(s) {
        s.map_values(|c: char| ascii_lower(c))
    } else {
        lowercase_beyond_ascii(s)
    }
}

/// Whether `c` is whitespace, as `char::is_whitespace` decides it.
pub(crate) fn char_is_whitespace(c: char) -> (r: bool)
    ensures
        r == is_whitespace(c),
{
    ('\u{9}' <= c && c <= '\u{d}') || c == ' ' || c == '\u{85}' || c == '\u{a0}' || c == '\u{1680}'
        || ('\u{2000}' <= c && c <= '\u{200a}') || c == '\u{2028}' || c == '\u{2029}' || c
        == '\u{202f}' || c == '\u{205f}' || c == '\u{3000}'
}

/// Calls `char::is_alphanumeric`.  Its result is `is_alphanumeric(c)`: for
/// ASCII characters whether `c` is a letter or digit, beyond ASCII the name
/// `is_alphanumeric_beyond_ascii(c)`, of which nothing more is claimed.
#[verifier::external_body]
pub(crate) fn char_is_alphanumeric(c: char) -> (r: bool)
    ensures
        is_ascii_char(c) ==> r == is_ascii_alnum(c),
        !is_ascii_char(c) ==> r == is_alphanumeric_beyond_ascii(c),
{
    c.is_alphanumeric()
}

/// Calls `str::to_lowercase`.  The characters of its result are
/// `lowercase(s@)`: for ASCII text the ASCII lower-case form, otherwise the
/// name `lowercase_beyond_ascii(s@)`, which depends on the characters of `s`
/// alone and of which nothing more is claimed.
#[verifier::external_body]
pub(crate) fn str_to_lowercase(s: &str) -> (r: String)
    ensures
        all_ascii(s@) ==> r@ == s@.map_values(|c: char| ascii_lower(c)),
        !all_ascii(s@) ==> r@ == lowercase_beyond_ascii(s@),
{
    s.to_lowercase()
}

/// Calls `String::push`: the character is appended at the end.
#[verifier::external_body]
pub(crate) fn string_push(s: &mut String, c: char)
    ensures
        final(s)@ == old(s)@.push(c),
{
    s.push(c)
}

} // verus!
