//! Character classification.
//!
//! The token grammars are stated over a small set of character classes.
//! Classes with a short closed definition (whitespace, the Thai block,
//! variation selectors) are defined directly.  Classes that stand for a full
//! Unicode general-category table (alphanumeric characters, punctuation,
//! nonspacing marks, numbers, decimal digits) are named by uninterpreted
//! spec functions and computed by trusted calls into `std` and the
//! `unicode_categories` crate.

use vstd::prelude::*;

verus! {

/// Whether `c` is an alphanumeric character (Unicode general categories
/// Lu, Ll, Lt, Lm, Lo, Nd, Nl, No), as decided by `char::is_alphanumeric`.
pub uninterp spec fn alnum_char(c: char) -> bool;

/// Whether `c` is a punctuation character (Unicode general category P and
/// all of its subclasses), as decided by
/// `unicode_categories::UnicodeCategories::is_punctuation`.
pub uninterp spec fn punct_char(c: char) -> bool;

/// Whether `c` is a nonspacing mark (Unicode general category Mn), as
/// decided by `unicode_categories::UnicodeCategories::is_mark_nonspacing`.
pub uninterp spec fn nonspacing_mark_char(c: char) -> bool;

/// Whether `c` is a number (Unicode general categories Nd, Nl, No), as
/// decided by `unicode_categories::UnicodeCategories::is_number`.
pub uninterp spec fn number_char(c: char) -> bool;

/// Whether `c` is a decimal digit (Unicode general category Nd), as decided
/// by `unicode_categories::UnicodeCategories::is_number_decimal_digit`.
pub uninterp spec fn decimal_digit_char(c: char) -> bool;

/// Relies on `char::is_alphanumeric`: true exactly for the Unicode letter
/// and number general categories.  The result depends on the character alone.
#[verifier::external_body]
pub fn is_alnum_char(c: char) -> (r: bool)
    ensures
        r == alnum_char(c),
{
    c.is_alphanumeric()
}

/// Relies on `unicode_categories::UnicodeCategories::is_punctuation`: true
/// exactly for the Unicode punctuation general categories (Pc, Pd, Pe, Pf,
/// Pi, Po, Ps).  The result depends on the character alone.
#[verifier::external_body]
pub fn is_punct_char(c: char) -> (r: bool)
    ensures
        r == punct_char(c),
{
    unicode_categories::UnicodeCategories::is_punctuation(c)
}

/// Relies on `unicode_categories::UnicodeCategories::is_mark_nonspacing`:
/// true exactly for Unicode general category Mn.  The result depends on the
/// character alone.
#[verifier::external_body]
pub fn is_nonspacing_mark_char(c: char) -> (r: bool)
    ensures
        r == nonspacing_mark_char(c),
{
    unicode_categories::UnicodeCategories::is_mark_nonspacing(c)
}

/// Relies on `unicode_categories::UnicodeCategories::is_number`: true
/// exactly for the Unicode number general categories (Nd, Nl, No).  The
/// result depends on the character alone.
#[verifier::external_body]
pub fn is_number_char(c: char) -> (r: bool)
    ensures
        r == number_char(c),
{
    unicode_categories::UnicodeCategories::is_number(c)
}

/// Relies on `unicode_categories::UnicodeCategories::is_number_decimal_digit`:
/// true exactly for Unicode general category Nd.  The result depends on the
/// character alone.
#[verifier::external_body]
pub fn is_decimal_digit_char(c: char) -> (r: bool)
    ensures
        r == decimal_digit_char(c),
{
    unicode_categories::UnicodeCategories::is_number_decimal_digit(c)
}

/// The Unicode `White_Space` characters, written out.
pub open spec fn space_char(c: char) -> bool {
    ||| c == ' '
    ||| c == '\t'
    ||| c == '\n'
    ||| c == '\u{000b}'
    ||| c == '\u{000c}'
    ||| c == '\r'
    ||| c == '\u{0085}'
    ||| c == '\u{00a0}'
    ||| c == '\u{1680}'
    ||| ('\u{2000}' <= c && c <= '\u{200a}')
    ||| c == '\u{2028}'
    ||| c == '\u{2029}'
    ||| c == '\u{202f}'
    ||| c == '\u{205f}'
    ||| c == '\u{3000}'
}

pub fn is_space_char(c: char) -> (r: bool)
    ensures
        r == space_char(c),
{
    c == ' ' || c == '\t' || c == '\n' || c == '\u{000b}' || c == '\u{000c}' || c == '\r'
        || c == '\u{0085}' || c == '\u{00a0}' || c == '\u{1680}'
        || ('\u{2000}' <= c && c <= '\u{200a}') || c == '\u{2028}' || c == '\u{2029}'
        || c == '\u{202f}' || c == '\u{205f}' || c == '\u{3000}'
}

/// A word character: alphanumeric or underscore.
pub open spec fn word_char(c: char) -> bool {
    alnum_char(c) || c == '_'
}

pub fn is_word_char(c: char) -> (r: bool)
    ensures
        r == word_char(c),
{
    c == '_' || is_alnum_char(c)
}

/// A letter-like character: alphanumeric but not a decimal digit.  This is
/// the class that may open a generic word token.
pub open spec fn letter_char(c: char) -> bool {
    alnum_char(c) && !decimal_digit_char(c)
}

pub fn is_letter_char(c: char) -> (r: bool)
    ensures
        r == letter_char(c),
{
    !is_decimal_digit_char(c) && is_alnum_char(c)
}

/// A character of the Thai block, which the word grammar admits inside a
/// word even where it is a combining sign rather than a letter.
pub open spec fn thai_char(c: char) -> bool {
    '\u{0e00}' <= c && c <= '\u{0e7f}'
}

pub fn is_thai_char(c: char) -> (r: bool)
    ensures
        r == thai_char(c),
{
    '\u{0e00}' <= c && c <= '\u{0e7f}'
}

/// A variation selector (U+FE00 through U+FE0F); these are stripped during
/// preprocessing.
pub open spec fn variation_selector(c: char) -> bool {
    '\u{fe00}' <= c && c <= '\u{fe0f}'
}

pub fn is_variation_selector(c: char) -> (r: bool)
    ensures
        r == variation_selector(c),
{
    '\u{fe00}' <= c && c <= '\u{fe0f}'
}

} // verus!
