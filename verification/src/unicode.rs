//! Unicode case mapping and character classes, as `str` and `char` of the
//! standard library compute them. Their results take the Unicode tables to
//! state, so each is named here, and the functions that use them are exact
//! over those names.

use vstd::prelude::*;
use crate::text::{chars_of, string_of};

verus! {

/// An ASCII character.
pub open spec fn is_ascii_char(c: char) -> bool {
    (c as u32) < 128
}

/// Every character is ASCII.
pub open spec fn is_ascii_text(s: Seq<char>) -> bool {
    forall|i: int| 0 <= i < s.len() ==> is_ascii_char(#[trigger] s[i])
}

/// An ASCII uppercase letter.
pub open spec fn is_ascii_upper(c: char) -> bool {
    'A' <= c && c <= 'Z'
}

/// An ASCII lowercase letter.
pub open spec fn is_ascii_lower(c: char) -> bool {
    'a' <= c && c <= 'z'
}

/// An ASCII letter or digit.
pub open spec fn is_ascii_alnum(c: char) -> bool {
    is_ascii_upper(c) || is_ascii_lower(c) || ('0' <= c && c <= '9')
}

/// An ASCII uppercase letter made lowercase; other characters unchanged.
pub open spec fn ascii_to_lower(c: char) -> char {
    if is_ascii_upper(c) {
        ((c as u32) + 32) as char
    } else {
        c
    }
}

/// An ASCII lowercase letter made uppercase; other characters unchanged.
pub open spec fn ascii_to_upper(c: char) -> char {
    if is_ascii_lower(c) {
        ((c as u32) - 32) as char
    } else {
        c
    }
}

/// What `str::to_lowercase` returns for a string: the Unicode lowercase
/// mapping (Derived Core Property `Lowercase`) applied to it.
pub uninterp spec fn lowercase(s: Seq<char>) -> Seq<char>;

/// What `str::to_uppercase` returns for a string: the Unicode uppercase
/// mapping (Derived Core Property `Uppercase`) applied to it.
pub uninterp spec fn uppercase(s: Seq<char>) -> Seq<char>;

/// What `char::is_uppercase` returns: whether the character has the Unicode
/// `Uppercase` property.
pub uninterp spec fn is_uppercase(c: char) -> bool;

/// What `char::is_alphanumeric` returns: whether the character has the
/// Unicode `Alphabetic` property or a numeric general category.
pub uninterp spec fn is_alphanumeric(c: char) -> bool;

/// What `char::to_lowercase` yields first for a character (the character
/// itself where it yields nothing).
pub uninterp spec fn lowercase_first(c: char) -> char;

/// `str::to_lowercase`: the result is the name `lowercase` applied to the
/// argument; for ASCII text it maps `A`-`Z` to `a`-`z` and keeps every other
/// character (the Unicode lowercase mapping of ASCII).
#[verifier::external_body]
pub(crate) fn str_to_lowercase(s: &str) -> (r: String)
    ensures
        r@ == lowercase(s@),
        is_ascii_text(s@) ==> r@ == s@.map_values(|c: char| ascii_to_lower(c)),
{
    s.to_lowercase()
}

/// `str::to_uppercase`: the result is the name `uppercase` applied to the
/// argument; for ASCII text it maps `a`-`z` to `A`-`Z` and keeps every other
/// character (the Unicode uppercase mapping of ASCII).
#[verifier::external_body]
pub(crate) fn str_to_uppercase(s: &str) -> (r: String)
    ensures
        r@ == uppercase(s@),
        is_ascii_text(s@) ==> r@ == s@.map_values(|c: char| ascii_to_upper(c)),
{
    s.to_uppercase()
}

/// `char::is_uppercase`: the result is the name `is_uppercase` of the
/// character; of the ASCII characters, exactly `A`-`Z` are uppercase.
#[verifier::external_body]
pub(crate) fn char_is_uppercase(c: char) -> (b: bool)
    ensures
        b == is_uppercase(c),
        is_ascii_char(c) ==> (b <==> is_ascii_upper(c)),
{
    c.is_uppercase()
}

/// `char::is_alphanumeric`: the result is the name `is_alphanumeric` of the
/// character; of the ASCII characters, exactly the letters and digits are.
#[verifier::external_body]
pub(crate) fn char_is_alphanumeric(c: char) -> (b: bool)
    ensures
        b == is_alphanumeric(c),
        is_ascii_char(c) ==> (b <==> is_ascii_alnum(c)),
{
    c.is_alphanumeric()
}

/// The first character that `char::to_lowercase` yields, or the character
/// itself if it yields none: the result is the name `lowercase_first`; for
/// an ASCII character it is its ASCII lowercase.
#[verifier::external_body]
pub(crate) fn char_lowercase_first(c: char) -> (r: char)
    ensures
        r == lowercase_first(c),
        is_ascii_char(c) ==> r == ascii_to_lower(c),
{
    c.to_lowercase().next().unwrap_or(c)
}

/// The lowercase of a character sequence.
pub fn lowercase_chars(s: &[char]) -> (r: Vec<char>)
    ensures
        r@ == lowercase(s@),
        is_ascii_text(s@) ==> r@ == s@.map_values(|c: char| ascii_to_lower(c)),
{
    let st = string_of(s);
    let low = str_to_lowercase(st.as_str());
    chars_of(low.as_str())
}

} // verus!
