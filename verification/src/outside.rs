//! What the library takes from `bytesize` and from the parts of `std` that
//! carry no contract of their own. Every statement here is believed, not
//! proved.

use vstd::prelude::*;

#[allow(unused_imports)]
use crate::text;

verus! {

/// The text that `bytesize` shows for a number of bytes, such as `8.0 GiB`.
pub uninterp spec fn byte_size_text(bytes: u64) -> Seq<char>;

/// Wraps `bytesize::ByteSize`'s `Display`, read through `to_string`.
///
/// Claimed: the text is a function of the number of bytes alone.
#[verifier::external_body]
pub(crate) fn byte_size(bytes: u64) -> (shown: String)
    ensures
        shown@ == byte_size_text(bytes),
{
    bytesize::ByteSize(bytes).to_string()
}

/// The Unicode upper-case form of a text.
pub uninterp spec fn unicode_uppercase(s: Seq<char>) -> Seq<char>;

/// The Unicode lower-case form of a text.
pub uninterp spec fn unicode_lowercase(s: Seq<char>) -> Seq<char>;

/// `str::to_uppercase` returns the upper-case equivalent of the slice.
///
/// Claimed: the result is a function of the text alone, and on ASCII text each
/// letter `a` to `z` becomes `A` to `Z` and nothing else changes.
pub assume_specification[ str::to_uppercase ](s: &str) -> (upper: String)
    ensures
        upper@ == unicode_uppercase(s@),
        text::ascii_only(s@) ==> upper@ == text::ascii_upper(s@),
;

/// `str::to_lowercase` returns the lower-case equivalent of the slice.
///
/// Claimed: the result is a function of the text alone, and on ASCII text each
/// letter `A` to `Z` becomes `a` to `z` and nothing else changes.
pub assume_specification[ str::to_lowercase ](s: &str) -> (lower: String)
    ensures
        lower@ == unicode_lowercase(s@),
        text::ascii_only(s@) ==> lower@ == text::ascii_lower(s@),
;

/// The text of a UTF-16 sequence: a unit that is no surrogate stands for itself,
/// a high surrogate and a low one behind it for a character beyond U+FFFF, and
/// any other surrogate for U+FFFD.
pub open spec fn utf16_lossy_text(units: Seq<u16>) -> Seq<char>
    decreases units.len(),
{
    if units.len() == 0 {
        Seq::empty()
    } else {
        let u = units[0] as int;
        if u < 0xD800 || u > 0xDFFF {
            seq![u as char] + utf16_lossy_text(units.skip(1))
        } else if u < 0xDC00 && units.len() > 1 && 0xDC00 <= units[1] <= 0xDFFF {
            let pair = 0x10000 + (u - 0xD800) * 0x400 + (units[1] - 0xDC00);
            seq![pair as char] + utf16_lossy_text(units.skip(2))
        } else {
            seq!['\u{FFFD}'] + utf16_lossy_text(units.skip(1))
        }
    }
}

/// `String::from_utf16_lossy` decodes UTF-16 and puts U+FFFD in place of
/// invalid data.
///
/// Claimed: surrogate pairs are decoded, each surrogate without its partner
/// becomes one U+FFFD, and every other unit is the character of that number.
pub assume_specification[ String::from_utf16_lossy ](units: &[u16]) -> (decoded: String)
    ensures
        decoded@ == utf16_lossy_text(units@),
;

/// `String::push` appends the given character to the end of the string.
pub assume_specification[ String::push ](s: &mut String, c: char)
    ensures
        final(s)@ == old(s)@.push(c),
;

/// `String::pop` removes the last character and returns it, or returns `None`
/// and leaves the string empty.
pub assume_specification[ String::pop ](s: &mut String) -> (last: Option<char>)
    ensures
        old(s)@.len() == 0 ==> last is None && final(s)@ == old(s)@,
        old(s)@.len() > 0 ==> last == Some(old(s)@.last()) && final(s)@ == old(s)@.drop_last(),
;

} // verus!
