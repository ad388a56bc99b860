//! Character-level rewriting passes used by preprocessing: variation-selector
//! stripping, accent stripping, repeated-character reduction, splitting of
//! attached URLs, apostrophe repair, and replacement-character cleanup.

use vstd::prelude::*;
use crate::chars::{variation_selector, nonspacing_mark_char, word_char, is_variation_selector,
    is_nonspacing_mark_char, is_word_char};
use crate::patterns::http_prefix_len;
use crate::strutil::{str_chars, push_char};

verus! {

/// The normal-form decomposition (NFD) of a string, as computed by the
/// `unicode_normalization` crate.
pub uninterp spec fn nfd_of(s: Seq<char>) -> Seq<char>;

/// Relies on `unicode_normalization::UnicodeNormalization::nfd`: the
/// canonical decomposition, which depends on the characters alone.
#[verifier::external_body]
fn nfd_decompose(s: &str) -> (r: String)
    ensures
        r@ == nfd_of(s@),
{
    unicode_normalization::UnicodeNormalization::nfd(s).collect()
}

/// `s` with its variation selectors removed.
pub open spec fn strip_selectors(s: Seq<char>) -> Seq<char>
    decreases s.len(),
{
    if s.len() == 0 {
        s
    } else {
        strip_selectors(s.drop_last()) + (if variation_selector(s.last()) {
            Seq::<char>::empty()
        } else {
            seq![s.last()]
        })
    }
}

/// `s` with its nonspacing marks removed.
pub open spec fn strip_marks(s: Seq<char>) -> Seq<char>
    decreases s.len(),
{
    if s.len() == 0 {
        s
    } else {
        strip_marks(s.drop_last()) + (if nonspacing_mark_char(s.last()) {
            Seq::<char>::empty()
        } else {
            seq![s.last()]
        })
    }
}

/// `s` with every replacement character removed.
pub open spec fn remove_replacement_chars(s: Seq<char>) -> Seq<char>
    decreases s.len(),
{
    if s.len() == 0 {
        s
    } else {
        remove_replacement_chars(s.drop_last()) + (if s.last() == '\u{fffd}' {
            Seq::<char>::empty()
        } else {
            seq![s.last()]
        })
    }
}

/// `s` with a trailing run of two or more replacement characters collapsed
/// to a single one.
pub open spec fn collapse_trailing_replacement(s: Seq<char>) -> Seq<char>
    decreases s.len(),
{
    if s.len() >= 2 && s[s.len() - 1] == '\u{fffd}' && s[s.len() - 2] == '\u{fffd}' {
        collapse_trailing_replacement(s.drop_last())
    } else {
        s
    }
}

/// Whether the character at `i` survives repeated-character reduction: it
/// does unless the three characters before it are all equal to it.
pub open spec fn kept_after_reduction(s: Seq<char>, i: int) -> bool {
    !(i >= 3 && s[i] == s[i - 1] && s[i] == s[i - 2] && s[i] == s[i - 3])
}

pub open spec fn reduce_repeats_prefix(s: Seq<char>, n: int) -> Seq<char>
    decreases n,
{
    if n <= 0 {
        Seq::empty()
    } else {
        reduce_repeats_prefix(s, n - 1) + (if kept_after_reduction(s, n - 1) {
            seq![s[n - 1]]
        } else {
            Seq::<char>::empty()
        })
    }
}

/// `s` with every run of more than three equal characters cut down to
/// exactly three.
pub open spec fn reduce_repeats(s: Seq<char>) -> Seq<char> {
    reduce_repeats_prefix(s, s.len() as int)
}

/// `s` with a space inserted after every non-space character immediately
/// followed by `http://` or `https://`.
pub open spec fn split_attached_urls_from(s: Seq<char>, i: int) -> Seq<char>
    decreases s.len() - i,
    when 0 <= i <= s.len()
{
    if i >= s.len() {
        Seq::empty()
    } else {
        seq![s[i]] + (if s[i] != ' ' && http_prefix_len(s, i + 1) is Some {
            seq![' ']
        } else {
            Seq::<char>::empty()
        }) + split_attached_urls_from(s, i + 1)
    }
}

pub open spec fn split_attached_urls(s: Seq<char>) -> Seq<char> {
    split_attached_urls_from(s, 0)
}

/// `s` with every `?` standing between two word characters read as an
/// apostrophe that lost its encoding (so `c?est` becomes `c'est`).
pub open spec fn apostrophes_repaired(s: Seq<char>) -> Seq<char> {
    Seq::new(s.len(), |k: int| if s[k] == '?' && 0 < k && k + 1 < s.len() && word_char(s[k - 1])
        && word_char(s[k + 1]) {
        '\''
    } else {
        s[k]
    })
}

/// Strips the accents: decomposes the string and drops every nonspacing
/// mark.
pub fn strip_accents_unicode(text: &str) -> (r: String)
    ensures
        r@ == strip_marks(nfd_of(text@)),
{
    let decomposed = nfd_decompose(text);
    let v = str_chars(decomposed.as_str());
    let mut out = String::new();
    let mut i: usize = 0;
    while i < v.len()
        invariant
            i <= v.len(),
            v@ == nfd_of(text@),
            out@ == strip_marks(nfd_of(text@).subrange(0, i as int)),
        decreases v.len() - i,
    {
        let ghost pre = nfd_of(text@).subrange(0, i as int);
        let ghost post = nfd_of(text@).subrange(0, i as int + 1);
        proof {
            assert(post.drop_last() =~= pre);
        }
        if !is_nonspacing_mark_char(v[i]) {
            push_char(&mut out, v[i]);
            proof {
                assert(out@ =~= strip_marks(post));
            }
        } else {
            proof {
                assert(out@ =~= strip_marks(post));
            }
        }
        i += 1;
    }
    proof {
        assert(nfd_of(text@).subrange(0, nfd_of(text@).len() as int) =~= nfd_of(text@));
    }
    out
}

/// Removes the sixteen variation selectors.
pub fn remove_variation_selectors(text: &str) -> (r: String)
    ensures
        r@ == strip_selectors(text@),
{
    let v = str_chars(text);
    let mut out = String::new();
    let mut i: usize = 0;
    while i < v.len()
        invariant
            i <= v.len(),
            v@ == text@,
            out@ == strip_selectors(text@.subrange(0, i as int)),
        decreases v.len() - i,
    {
        let ghost post = text@.subrange(0, i as int + 1);
        proof {
            assert(post.drop_last() =~= text@.subrange(0, i as int));
        }
        if !is_variation_selector(v[i]) {
            push_char(&mut out, v[i]);
        }
        proof {
            assert(out@ =~= strip_selectors(post));
        }
        i += 1;
    }
    proof {
        assert(text@.subrange(0, text@.len() as int) =~= text@);
    }
    out
}

/// Removes every replacement character.
pub fn remove_replacement_characters(text: &str) -> (r: String)
    ensures
        r@ == remove_replacement_chars(text@),
{
    let v = str_chars(text);
    let mut out = String::new();
    let mut i: usize = 0;
    while i < v.len()
        invariant
            i <= v.len(),
            v@ == text@,
            out@ == remove_replacement_chars(text@.subrange(0, i as int)),
        decreases v.len() - i,
    {
        let ghost post = text@.subrange(0, i as int + 1);
        proof {
            assert(post.drop_last() =~= text@.subrange(0, i as int));
        }
        if v[i] != '\u{fffd}' {
            push_char(&mut out, v[i]);
        }
        proof {
            assert(out@ =~= remove_replacement_chars(post));
        }
        i += 1;
    }
    proof {
        assert(text@.subrange(0, text@.len() as int) =~= text@);
    }
    out
}

/// Collapses a trailing run of replacement characters to one.
pub fn collapse_trailing_replacements(text: &str) -> (r: String)
    ensures
        r@ == collapse_trailing_replacement(text@),
{
    let mut v = str_chars(text);
    loop
        invariant
            collapse_trailing_replacement(text@) == collapse_trailing_replacement(v@),
        decreases v.len(),
    {
        if v.len() >= 2 && v[v.len() - 1] == '\u{fffd}' && v[v.len() - 2] == '\u{fffd}' {
            let ghost before = v@;
            v.pop();
            proof {
                assert(v@ =~= before.drop_last());
            }
        } else {
            return crate::strutil::chars_string(&v);
        }
    }
}

/// Cuts every run of more than three equal characters down to three.
pub fn reduce_lengthening(text: &str) -> (r: String)
    ensures
        r@ == reduce_repeats(text@),
{
    let v = str_chars(text);
    let mut out = String::new();
    let mut i: usize = 0;
    while i < v.len()
        invariant
            i <= v.len(),
            v@ == text@,
            out@ == reduce_repeats_prefix(text@, i as int),
        decreases v.len() - i,
    {
        if i >= 3 && v[i] == v[i - 1] && v[i] == v[i - 2] && v[i] == v[i - 3] {
            proof {
                assert(out@ =~= reduce_repeats_prefix(text@, i as int + 1));
            }
        } else {
            push_char(&mut out, v[i]);
            proof {
                assert(out@ =~= reduce_repeats_prefix(text@, i as int + 1));
            }
        }
        i += 1;
    }
    out
}

/// Splits the text appearing before a URL from the URL: a space is inserted
/// between a non-space character and an immediately following `http(s)://`.
#[verifier::loop_isolation(false)]
pub fn preprocess_url(text: &str) -> (r: String)
    ensures
        r@ == split_attached_urls(text@),
{
    let v = str_chars(text);
    let mut out = String::new();
    let mut i: usize = 0;
    while i < v.len()
        invariant
            i <= v.len(),
            out@ + split_attached_urls_from(text@, i as int) == split_attached_urls(text@),
        decreases v.len() - i,
    {
        push_char(&mut out, v[i]);
        if v[i] != ' ' {
            match crate::patterns::http_prefix_at(&v, i + 1) {
                Some(_) => {
                    push_char(&mut out, ' ');
                },
                None => (),
            }
        }
        proof {
            assert(out@ + split_attached_urls_from(text@, i as int + 1) =~= split_attached_urls(
                text@,
            ));
        }
        i += 1;
    }
    proof {
        assert(out@ + split_attached_urls_from(text@, i as int) =~= out@);
    }
    out
}

/// Repairs a `?` standing between two word characters to an apostrophe.
pub fn fix_apostrophes(text: &str) -> (r: String)
    ensures
        r@ == apostrophes_repaired(text@),
{
    let v = str_chars(text);
    let mut out = String::new();
    let mut i: usize = 0;
    while i < v.len()
        invariant
            i <= v.len(),
            v@ == text@,
            out@ == apostrophes_repaired(text@).subrange(0, i as int),
        decreases v.len() - i,
    {
        if v[i] == '?' && i > 0 && i + 1 < v.len() && is_word_char(v[i - 1])
            && is_word_char(v[i + 1]) {
            push_char(&mut out, '\'');
        } else {
            push_char(&mut out, v[i]);
        }
        proof {
            assert(out@ =~= apostrophes_repaired(text@).subrange(0, i as int + 1));
        }
        i += 1;
    }
    proof {
        assert(apostrophes_repaired(text@).subrange(0, text@.len() as int) =~= apostrophes_repaired(
            text@,
        ));
    }
    out
}

} // verus!
