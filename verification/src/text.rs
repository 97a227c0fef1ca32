//! Text primitives: substring containment, case folding and the few
//! `String` operations that the rest of the crate builds on.
//!
//! The functions of the standard library that appear here have no
//! specification in vstd. Their contracts below are stated from the standard
//! library's documentation and are believed, not proved.

use vstd::prelude::*;

verus! {

/// `needle` occurs in `hay` as a contiguous run of characters.
pub open spec fn is_substring(needle: Seq<char>, hay: Seq<char>) -> bool {
    exists|i: int|
        0 <= i && i + needle.len() <= hay.len() && #[trigger] hay.subrange(i, i + needle.len())
            == needle
}

/// The Unicode lower-case form of a text, as `str::to_lowercase` computes it.
/// It follows the Unicode character database and is not written out here.
pub uninterp spec fn lowercase(s: Seq<char>) -> Seq<char>;

/// `str::contains` with a string pattern: true exactly when the pattern occurs
/// somewhere in the text. Believed from the standard library's documentation.
#[verifier::external_body]
pub(crate) fn contains(hay: &str, needle: &str) -> (found: bool)
    ensures
        found == is_substring(needle@, hay@),
{
    hay.contains(needle)
}

/// `str::to_lowercase`: the result is the lower-case form of the argument and
/// depends on nothing else. Believed from the standard library's
/// documentation.
pub assume_specification[ str::to_lowercase ](s: &str) -> (lower: String)
    ensures
        lower@ == lowercase(s@),
;

/// `String::push`: appends one character. Believed from the standard
/// library's documentation.
pub assume_specification[ String::push ](s: &mut String, c: char)
    ensures
        final(s)@ == old(s)@.push(c),
;

/// `String::pop`: removes the last character and returns it, or returns
/// `None` and leaves an empty string empty. Believed from the standard
/// library's documentation.
pub assume_specification[ String::pop ](s: &mut String) -> (last: Option<char>)
    ensures
        old(s)@.len() == 0 ==> last.is_none() && final(s)@ == old(s)@,
        old(s)@.len() > 0 ==> last == Some(old(s)@.last()) && final(s)@ == old(s)@.drop_last(),
;

} // verus!
