//! Normalization of raw input before tokenization.
//!
//! The passes run in a fixed order: encoding cleanup, case folding, accent
//! stripping, repeated-character reduction, variation-selector stripping,
//! splitting of attached URLs, apostrophe repair, and HTML-entity
//! decoding.  Case folding, entity decoding and re-encoding rest on outside
//! code; everything around them is verified.

use vstd::prelude::*;
use crate::utils::{
    nfd_of, strip_selectors, strip_marks, remove_replacement_chars,
    collapse_trailing_replacement, reduce_repeats, split_attached_urls, apostrophes_repaired,
    strip_accents_unicode, remove_variation_selectors, remove_replacement_characters,
    collapse_trailing_replacements, reduce_lengthening, preprocess_url, fix_apostrophes,
};

verus! {

/// The lowercase form of a string, as computed by `str::to_lowercase`.
pub uninterp spec fn lower_of(s: Seq<char>) -> Seq<char>;

/// Relies on `str::to_lowercase`: the Unicode lowercase mapping, which
/// depends on the characters alone.
#[verifier::external_body]
fn lowercase(s: &str) -> (r: String)
    ensures
        r@ == lower_of(s@),
{
    s.to_lowercase()
}

/// A string with its HTML entities decoded, as computed by the
/// `html_escape` crate.
pub uninterp spec fn html_decoded(s: Seq<char>) -> Seq<char>;

/// Relies on `html_escape::decode_html_entities`: decodes every HTML entity
/// in the text; the result depends on the characters alone.
#[verifier::external_body]
fn decode_entities(s: &str) -> (r: String)
    ensures
        r@ == html_decoded(s@),
{
    html_escape::decode_html_entities(s).to_string()
}

/// A string carried through the encoding named by the label: encoded, then
/// decoded again, with unencodable characters replaced.  A label that names
/// no known encoding leaves the string unchanged.  Computed by the
/// `encoding_rs` crate.
pub uninterp spec fn reencoded(label: Seq<char>, s: Seq<char>) -> Seq<char>;

/// Relies on `encoding_rs::Encoding::for_label`, `Encoding::encode` and
/// `Encoding::decode`: a round trip through the named encoding, decoding
/// with the encoding that the encoder actually used.  The result depends on
/// the arguments alone.
#[verifier::external_body]
fn reencode_text(label: &str, s: &str) -> (r: String)
    ensures
        r@ == reencoded(label@, s@),
{
    match encoding_rs::Encoding::for_label(label.as_bytes()) {
        Some(enc) => {
            let (bytes, used, _) = enc.encode(s);
            let (out, _, _) = used.decode(&bytes);
            out.to_string()
        },
        None => s.to_string(),
    }
}

/// The cleaned text: every preprocessing pass applied in order, under the
/// given options.
pub open spec fn preprocess_spec(
    s: Seq<char>,
    encoding: Option<Seq<char>>,
    remove_unencodable: bool,
    to_lower: bool,
    strip_accents: bool,
    reduce_len: bool,
) -> Seq<char> {
    let s1 = match encoding {
        Some(label) => if remove_unencodable {
            remove_replacement_chars(reencoded(label, s))
        } else {
            collapse_trailing_replacement(reencoded(label, s))
        },
        None => s,
    };
    let s2 = if to_lower {
        lower_of(s1)
    } else {
        s1
    };
    let s3 = if strip_accents {
        strip_marks(nfd_of(s2))
    } else {
        s2
    };
    let s4 = if reduce_len {
        reduce_repeats(s3)
    } else {
        s3
    };
    html_decoded(apostrophes_repaired(split_attached_urls(strip_selectors(s4))))
}

/// The option view of an optional string slice.
pub open spec fn opt_str_view(o: Option<&str>) -> Option<Seq<char>> {
    match o {
        Some(s) => Some(s@),
        None => None,
    }
}

/// Cleans the raw text.  The encoding fix runs only when an encoding label
/// is given; case folding defaults to on; accent stripping and
/// repeated-character reduction default to off; the remaining passes always
/// run.
pub fn preprocess_text(
    text: String,
    encoding: Option<&str>,
    remove_unencodable_char: Option<bool>,
    to_lower: Option<bool>,
    strip_accents: Option<bool>,
    reduce_len: Option<bool>,
) -> (r: String)
    ensures
        r@ == preprocess_spec(
            text@,
            opt_str_view(encoding),
            remove_unencodable_char == Some(true),
            to_lower != Some(false),
            strip_accents == Some(true),
            reduce_len == Some(true),
        ),
{
    let mut t = text;
    match encoding {
        Some(label) => {
            let re = reencode_text(label, t.as_str());
            if remove_unencodable_char == Some(true) {
                t = remove_replacement_characters(re.as_str());
            } else {
                t = collapse_trailing_replacements(re.as_str());
            }
        },
        None => (),
    }
    if to_lower != Some(false) {
        t = lowercase(t.as_str());
    }
    if strip_accents == Some(true) {
        t = strip_accents_unicode(t.as_str());
    }
    if reduce_len == Some(true) {
        t = reduce_lengthening(t.as_str());
    }
    t = remove_variation_selectors(t.as_str());
    t = preprocess_url(t.as_str());
    t = fix_apostrophes(t.as_str());
    decode_entities(t.as_str())
}

/// Preprocesses and parses the text, handing back the final joined value.
pub fn prep(
    text: String,
    encoding: Option<&str>,
    remove_unencodable_char: Option<bool>,
    to_lower: Option<bool>,
    strip_accents: Option<bool>,
    reduce_len: Option<bool>,
    filters: Option<&Vec<String>>,
    emojis: Option<&str>,
    emoticons: Option<&str>,
    mentions: Option<&str>,
    hashtags: Option<&str>,
    urls: Option<&str>,
    digits: Option<&str>,
    puncts: Option<&str>,
    emails: Option<&str>,
    html_tags: Option<&str>,
) -> (r: Result<String, crate::token::InvalidAction>)
    ensures
        ({
            let clean = preprocess_spec(
                text@,
                opt_str_view(encoding),
                remove_unencodable_char == Some(true),
                to_lower != Some(false),
                strip_accents == Some(true),
                reduce_len == Some(true),
            );
            match r {
                Err(_) => crate::text_parser::any_action_invalid(
                    opt_str_view(mentions),
                    opt_str_view(hashtags),
                    opt_str_view(urls),
                    opt_str_view(digits),
                    opt_str_view(emojis),
                    opt_str_view(emoticons),
                    opt_str_view(puncts),
                    opt_str_view(emails),
                    opt_str_view(html_tags),
                ),
                Ok(v) => {
                    &&& !crate::text_parser::any_action_invalid(
                        opt_str_view(mentions),
                        opt_str_view(hashtags),
                        opt_str_view(urls),
                        opt_str_view(digits),
                        opt_str_view(emojis),
                        opt_str_view(emoticons),
                        opt_str_view(puncts),
                        opt_str_view(emails),
                        opt_str_view(html_tags),
                    )
                    &&& v@ == crate::text_parser::parse_value_spec(
                        clean,
                        crate::text_parser::opt_filters_view(filters),
                        opt_str_view(mentions),
                        opt_str_view(hashtags),
                        opt_str_view(urls),
                        opt_str_view(digits),
                        opt_str_view(emojis),
                        opt_str_view(emoticons),
                        opt_str_view(puncts),
                        opt_str_view(emails),
                        opt_str_view(html_tags),
                    )
                },
            }
        }),
{
    let mut parsed = match crate::text_parser::parse_text(
        text,
        encoding,
        remove_unencodable_char,
        to_lower,
        strip_accents,
        reduce_len,
        filters,
        emojis,
        emoticons,
        mentions,
        hashtags,
        urls,
        digits,
        puncts,
        emails,
        html_tags,
    ) {
        Ok(p) => p,
        Err(e) => {
            return Err(e);
        },
    };
    Ok(parsed.value())
}

} // verus!
