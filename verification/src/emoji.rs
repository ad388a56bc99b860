//! Emoji lookup.
//!
//! Membership in the emoji table and the two directions of conversion
//! (grapheme to `:shortcode:` and back) rest on the `emojis` crate.  The
//! table's contents are named by two uninterpreted spec functions; the
//! conversions around the lookups are verified.

use vstd::prelude::*;
use crate::strutil::{str_chars, chars_string_range, push_char};

verus! {

/// What `emojis::get` knows of a string: `None` when the string is not a
/// known emoji; otherwise the emoji's canonical shortcode, when it has one.
pub uninterp spec fn emoji_record(s: Seq<char>) -> Option<Option<Seq<char>>>;

/// What `emojis::get_by_shortcode` knows of a string: the emoji whose
/// shortcode it is, as that emoji's character sequence.
pub uninterp spec fn shortcode_record(s: Seq<char>) -> Option<Seq<char>>;

/// Relies on `emojis::get`: an exact lookup of the string in the emoji
/// table, and `Emoji::shortcode`, the emoji's first shortcode.  Both depend
/// on the argument alone.
#[verifier::external_body]
pub(crate) fn emoji_lookup(s: &str) -> (r: Option<Option<String>>)
    ensures
        match r {
            None => emoji_record(s@) is None,
            Some(None) => emoji_record(s@) == Some(None::<Seq<char>>),
            Some(Some(sc)) => emoji_record(s@) == Some(Some(sc@)),
        },
{
    match emojis::get(s) {
        Some(e) => Some(e.shortcode().map(|c| c.to_string())),
        None => None,
    }
}

/// Relies on `emojis::get_by_shortcode`: a lookup of the string among the
/// known shortcodes, and `Emoji::as_str`, the emoji's characters.  Both
/// depend on the argument alone.
#[verifier::external_body]
pub(crate) fn shortcode_lookup(s: &str) -> (r: Option<String>)
    ensures
        match r {
            None => shortcode_record(s@) is None,
            Some(e) => shortcode_record(s@) == Some(e@),
        },
{
    emojis::get_by_shortcode(s).map(|e| e.as_str().to_string())
}

/// The demojized alias form: `:`, a shortcode known to the alias table, `:`.
pub open spec fn is_emoji_alias_text(s: Seq<char>) -> bool {
    &&& s.len() >= 2
    &&& s[0] == ':'
    &&& s[s.len() - 1] == ':'
    &&& shortcode_record(s.subrange(1, s.len() - 1)) is Some
}

/// A token is an emoji when it is a known emoji grapheme or a well-formed
/// known alias.
pub open spec fn is_emoji_text(s: Seq<char>) -> bool {
    emoji_record(s) is Some || is_emoji_alias_text(s)
}

pub fn _is_unicode_emoji(value: &str) -> (r: bool)
    ensures
        r == (emoji_record(value@) is Some),
{
    match emoji_lookup(value) {
        Some(_) => true,
        None => false,
    }
}

pub fn _is_emoji_alias(value: &str) -> (r: bool)
    ensures
        r == is_emoji_alias_text(value@),
{
    let v = str_chars(value);
    if v.len() < 2 || v[0] != ':' || v[v.len() - 1] != ':' {
        return false;
    }
    let inner = chars_string_range(&v, 1, v.len() - 1);
    match shortcode_lookup(inner.as_str()) {
        Some(_) => true,
        None => false,
    }
}

/// `s` wrapped in a leading and a trailing colon.
pub open spec fn wrap_colons(s: Seq<char>) -> Seq<char> {
    seq![':'] + s + seq![':']
}

/// What the demojize action makes of a token text: the canonical shortcode
/// between colons when the text is a known emoji with a shortcode, else the
/// text itself between colons.
pub open spec fn demojized(s: Seq<char>) -> Seq<char> {
    match emoji_record(s) {
        Some(Some(sc)) => wrap_colons(sc),
        _ => wrap_colons(s),
    }
}

/// What the emojize action makes of a token text: the emoji whose shortcode
/// stands between the colons, when there is one; else the text unchanged.
pub open spec fn emojized(s: Seq<char>) -> Seq<char> {
    if s.len() >= 2 && s[0] == ':' && s[s.len() - 1] == ':' {
        match shortcode_record(s.subrange(1, s.len() - 1)) {
            Some(e) => e,
            None => s,
        }
    } else {
        s
    }
}

fn wrap_colons_exec(s: &str) -> (r: String)
    ensures
        r@ == wrap_colons(s@),
{
    let cs = str_chars(s);
    let mut out = String::new();
    push_char(&mut out, ':');
    let mut i: usize = 0;
    while i < cs.len()
        invariant
            i <= cs.len(),
            cs@ == s@,
            out@ == seq![':'] + s@.subrange(0, i as int),
        decreases cs.len() - i,
    {
        push_char(&mut out, cs[i]);
        proof {
            assert(cs@[i as int] == s@[i as int]);
            assert(out@ == (seq![':'] + s@.subrange(0, i as int)).push(s@[i as int]));
            assert(s@.subrange(0, i as int).push(s@[i as int]) =~= s@.subrange(0, i as int + 1));
            assert(out@ =~= seq![':'] + s@.subrange(0, i as int + 1));
        }
        i += 1;
    }
    push_char(&mut out, ':');
    proof {
        assert(s@.subrange(0, s@.len() as int) =~= s@);
        assert(out@ =~= wrap_colons(s@));
    }
    out
}

/// The demojize conversion of a token text.
pub fn demojize_value(value: &str) -> (r: String)
    ensures
        r@ == demojized(value@),
{
    match emoji_lookup(value) {
        Some(Some(sc)) => wrap_colons_exec(sc.as_str()),
        _ => wrap_colons_exec(value),
    }
}

/// The emojize conversion of a token text.
pub fn emojize_value(value: &str) -> (r: String)
    ensures
        r@ == emojized(value@),
{
    let v = str_chars(value);
    if v.len() >= 2 && v[0] == ':' && v[v.len() - 1] == ':' {
        let inner = chars_string_range(&v, 1, v.len() - 1);
        match shortcode_lookup(inner.as_str()) {
            Some(e) => e,
            None => value.to_owned(),
        }
    } else {
        value.to_owned()
    }
}

} // verus!
