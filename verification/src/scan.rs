//! Scanning primitives shared by the token grammars: maximal runs of a
//! character class, and the first occurrence of a character.
//!
//! Each run function yields the first index at or after `i` whose character
//! leaves the class, or the length of the text when the run reaches the end.

use vstd::prelude::*;
use crate::chars::{word_char, decimal_digit_char, space_char, is_word_char, is_decimal_digit_char, is_space_char};

verus! {

/// Lowercase ASCII letters: the class of the final labels of the email
/// grammar.
pub open spec fn lower_ascii(c: char) -> bool {
    'a' <= c && c <= 'z'
}

/// The body of a hashtag: word characters and hyphens.
pub open spec fn hashtag_body_char(c: char) -> bool {
    word_char(c) || c == '-'
}

/// What may continue a word token after its opening letter: letters,
/// apostrophe, hyphen, underscore, and the Thai block.
pub open spec fn word_tail_char(c: char) -> bool {
    crate::chars::letter_char(c) || c == '\'' || c == '-' || c == '_' || crate::chars::thai_char(c)
}

/// The interior of an HTML tag: anything but `>` and whitespace.
pub open spec fn tag_inner_char(c: char) -> bool {
    c != '>' && !space_char(c)
}

/// The middle of a URL of the scheme form: anything but whitespace and dots.
pub open spec fn nonspace_nondot(c: char) -> bool {
    !space_char(c) && c != '.'
}

pub open spec fn word_run(s: Seq<char>, i: int) -> int
    decreases s.len() - i,
    when 0 <= i <= s.len()
{
    if i < s.len() && word_char(s[i]) {
        word_run(s, i + 1)
    } else {
        i
    }
}

pub proof fn lemma_word_run(s: Seq<char>, i: int)
    requires
        0 <= i <= s.len(),
    ensures
        i <= word_run(s, i) <= s.len(),
        forall|k: int| i <= k < word_run(s, i) ==> word_char(s[k]),
        word_run(s, i) < s.len() ==> !word_char(s[word_run(s, i)]),
    decreases s.len() - i,
{
    if i < s.len() && word_char(s[i]) {
        lemma_word_run(s, i + 1);
    }
}

pub fn word_run_end(v: &Vec<char>, i: usize) -> (r: usize)
    requires
        i <= v.len(),
    ensures
        r == word_run(v@, i as int),
{
    let mut j = i;
    loop
        invariant
            i <= j <= v.len(),
            word_run(v@, i as int) == word_run(v@, j as int),
        decreases v.len() - j,
    {
        if j < v.len() && is_word_char(v[j]) {
            j += 1;
        } else {
            return j;
        }
    }
}

pub open spec fn digit_run(s: Seq<char>, i: int) -> int
    decreases s.len() - i,
    when 0 <= i <= s.len()
{
    if i < s.len() && decimal_digit_char(s[i]) {
        digit_run(s, i + 1)
    } else {
        i
    }
}

pub proof fn lemma_digit_run(s: Seq<char>, i: int)
    requires
        0 <= i <= s.len(),
    ensures
        i <= digit_run(s, i) <= s.len(),
        forall|k: int| i <= k < digit_run(s, i) ==> decimal_digit_char(s[k]),
        digit_run(s, i) < s.len() ==> !decimal_digit_char(s[digit_run(s, i)]),
    decreases s.len() - i,
{
    if i < s.len() && decimal_digit_char(s[i]) {
        lemma_digit_run(s, i + 1);
    }
}

pub fn digit_run_end(v: &Vec<char>, i: usize) -> (r: usize)
    requires
        i <= v.len(),
    ensures
        r == digit_run(v@, i as int),
{
    let mut j = i;
    loop
        invariant
            i <= j <= v.len(),
            digit_run(v@, i as int) == digit_run(v@, j as int),
        decreases v.len() - j,
    {
        if j < v.len() && is_decimal_digit_char(v[j]) {
            j += 1;
        } else {
            return j;
        }
    }
}

pub open spec fn nonspace_run(s: Seq<char>, i: int) -> int
    decreases s.len() - i,
    when 0 <= i <= s.len()
{
    if i < s.len() && !space_char(s[i]) {
        nonspace_run(s, i + 1)
    } else {
        i
    }
}

pub proof fn lemma_nonspace_run(s: Seq<char>, i: int)
    requires
        0 <= i <= s.len(),
    ensures
        i <= nonspace_run(s, i) <= s.len(),
        forall|k: int| i <= k < nonspace_run(s, i) ==> !space_char(s[k]),
        nonspace_run(s, i) < s.len() ==> space_char(s[nonspace_run(s, i)]),
    decreases s.len() - i,
{
    if i < s.len() && !space_char(s[i]) {
        lemma_nonspace_run(s, i + 1);
    }
}

pub fn nonspace_run_end(v: &Vec<char>, i: usize) -> (r: usize)
    requires
        i <= v.len(),
    ensures
        r == nonspace_run(v@, i as int),
{
    let mut j = i;
    loop
        invariant
            i <= j <= v.len(),
            nonspace_run(v@, i as int) == nonspace_run(v@, j as int),
        decreases v.len() - j,
    {
        if j < v.len() && !is_space_char(v[j]) {
            j += 1;
        } else {
            return j;
        }
    }
}

pub open spec fn space_run(s: Seq<char>, i: int) -> int
    decreases s.len() - i,
    when 0 <= i <= s.len()
{
    if i < s.len() && space_char(s[i]) {
        space_run(s, i + 1)
    } else {
        i
    }
}

pub proof fn lemma_space_run(s: Seq<char>, i: int)
    requires
        0 <= i <= s.len(),
    ensures
        i <= space_run(s, i) <= s.len(),
        forall|k: int| i <= k < space_run(s, i) ==> space_char(s[k]),
        space_run(s, i) < s.len() ==> !space_char(s[space_run(s, i)]),
    decreases s.len() - i,
{
    if i < s.len() && space_char(s[i]) {
        lemma_space_run(s, i + 1);
    }
}

pub fn space_run_end(v: &Vec<char>, i: usize) -> (r: usize)
    requires
        i <= v.len(),
    ensures
        r == space_run(v@, i as int),
{
    let mut j = i;
    loop
        invariant
            i <= j <= v.len(),
            space_run(v@, i as int) == space_run(v@, j as int),
        decreases v.len() - j,
    {
        if j < v.len() && is_space_char(v[j]) {
            j += 1;
        } else {
            return j;
        }
    }
}

pub open spec fn lower_run(s: Seq<char>, i: int) -> int
    decreases s.len() - i,
    when 0 <= i <= s.len()
{
    if i < s.len() && lower_ascii(s[i]) {
        lower_run(s, i + 1)
    } else {
        i
    }
}

pub proof fn lemma_lower_run(s: Seq<char>, i: int)
    requires
        0 <= i <= s.len(),
    ensures
        i <= lower_run(s, i) <= s.len(),
        forall|k: int| i <= k < lower_run(s, i) ==> lower_ascii(s[k]),
        lower_run(s, i) < s.len() ==> !lower_ascii(s[lower_run(s, i)]),
    decreases s.len() - i,
{
    if i < s.len() && lower_ascii(s[i]) {
        lemma_lower_run(s, i + 1);
    }
}

pub fn lower_run_end(v: &Vec<char>, i: usize) -> (r: usize)
    requires
        i <= v.len(),
    ensures
        r == lower_run(v@, i as int),
{
    let mut j = i;
    loop
        invariant
            i <= j <= v.len(),
            lower_run(v@, i as int) == lower_run(v@, j as int),
        decreases v.len() - j,
    {
        if j < v.len() && 'a' <= v[j] && v[j] <= 'z' {
            j += 1;
        } else {
            return j;
        }
    }
}

pub open spec fn hashtag_body_run(s: Seq<char>, i: int) -> int
    decreases s.len() - i,
    when 0 <= i <= s.len()
{
    if i < s.len() && hashtag_body_char(s[i]) {
        hashtag_body_run(s, i + 1)
    } else {
        i
    }
}

pub proof fn lemma_hashtag_body_run(s: Seq<char>, i: int)
    requires
        0 <= i <= s.len(),
    ensures
        i <= hashtag_body_run(s, i) <= s.len(),
        forall|k: int| i <= k < hashtag_body_run(s, i) ==> hashtag_body_char(s[k]),
        hashtag_body_run(s, i) < s.len() ==> !hashtag_body_char(s[hashtag_body_run(s, i)]),
    decreases s.len() - i,
{
    if i < s.len() && hashtag_body_char(s[i]) {
        lemma_hashtag_body_run(s, i + 1);
    }
}

pub fn hashtag_body_run_end(v: &Vec<char>, i: usize) -> (r: usize)
    requires
        i <= v.len(),
    ensures
        r == hashtag_body_run(v@, i as int),
{
    let mut j = i;
    loop
        invariant
            i <= j <= v.len(),
            hashtag_body_run(v@, i as int) == hashtag_body_run(v@, j as int),
        decreases v.len() - j,
    {
        if j < v.len() && (v[j] == '-' || is_word_char(v[j])) {
            j += 1;
        } else {
            return j;
        }
    }
}

pub open spec fn word_tail_run(s: Seq<char>, i: int) -> int
    decreases s.len() - i,
    when 0 <= i <= s.len()
{
    if i < s.len() && word_tail_char(s[i]) {
        word_tail_run(s, i + 1)
    } else {
        i
    }
}

pub proof fn lemma_word_tail_run(s: Seq<char>, i: int)
    requires
        0 <= i <= s.len(),
    ensures
        i <= word_tail_run(s, i) <= s.len(),
        forall|k: int| i <= k < word_tail_run(s, i) ==> word_tail_char(s[k]),
        word_tail_run(s, i) < s.len() ==> !word_tail_char(s[word_tail_run(s, i)]),
    decreases s.len() - i,
{
    if i < s.len() && word_tail_char(s[i]) {
        lemma_word_tail_run(s, i + 1);
    }
}

pub fn word_tail_run_end(v: &Vec<char>, i: usize) -> (r: usize)
    requires
        i <= v.len(),
    ensures
        r == word_tail_run(v@, i as int),
{
    let mut j = i;
    loop
        invariant
            i <= j <= v.len(),
            word_tail_run(v@, i as int) == word_tail_run(v@, j as int),
        decreases v.len() - j,
    {
        if j < v.len()
            && (v[j] == '\'' || v[j] == '-' || v[j] == '_' || crate::chars::is_thai_char(v[j])
                || crate::chars::is_letter_char(v[j])) {
            j += 1;
        } else {
            return j;
        }
    }
}

pub open spec fn tag_inner_run(s: Seq<char>, i: int) -> int
    decreases s.len() - i,
    when 0 <= i <= s.len()
{
    if i < s.len() && tag_inner_char(s[i]) {
        tag_inner_run(s, i + 1)
    } else {
        i
    }
}

pub proof fn lemma_tag_inner_run(s: Seq<char>, i: int)
    requires
        0 <= i <= s.len(),
    ensures
        i <= tag_inner_run(s, i) <= s.len(),
        forall|k: int| i <= k < tag_inner_run(s, i) ==> tag_inner_char(s[k]),
        tag_inner_run(s, i) < s.len() ==> !tag_inner_char(s[tag_inner_run(s, i)]),
    decreases s.len() - i,
{
    if i < s.len() && tag_inner_char(s[i]) {
        lemma_tag_inner_run(s, i + 1);
    }
}

pub fn tag_inner_run_end(v: &Vec<char>, i: usize) -> (r: usize)
    requires
        i <= v.len(),
    ensures
        r == tag_inner_run(v@, i as int),
{
    let mut j = i;
    loop
        invariant
            i <= j <= v.len(),
            tag_inner_run(v@, i as int) == tag_inner_run(v@, j as int),
        decreases v.len() - j,
    {
        if j < v.len() && v[j] != '>' && !is_space_char(v[j]) {
            j += 1;
        } else {
            return j;
        }
    }
}

pub open spec fn nonspace_nondot_run(s: Seq<char>, i: int) -> int
    decreases s.len() - i,
    when 0 <= i <= s.len()
{
    if i < s.len() && nonspace_nondot(s[i]) {
        nonspace_nondot_run(s, i + 1)
    } else {
        i
    }
}

pub proof fn lemma_nonspace_nondot_run(s: Seq<char>, i: int)
    requires
        0 <= i <= s.len(),
    ensures
        i <= nonspace_nondot_run(s, i) <= s.len(),
        forall|k: int| i <= k < nonspace_nondot_run(s, i) ==> nonspace_nondot(s[k]),
        nonspace_nondot_run(s, i) < s.len() ==> !nonspace_nondot(s[nonspace_nondot_run(s, i)]),
    decreases s.len() - i,
{
    if i < s.len() && nonspace_nondot(s[i]) {
        lemma_nonspace_nondot_run(s, i + 1);
    }
}

pub fn nonspace_nondot_run_end(v: &Vec<char>, i: usize) -> (r: usize)
    requires
        i <= v.len(),
    ensures
        r == nonspace_nondot_run(v@, i as int),
{
    let mut j = i;
    loop
        invariant
            i <= j <= v.len(),
            nonspace_nondot_run(v@, i as int) == nonspace_nondot_run(v@, j as int),
        decreases v.len() - j,
    {
        if j < v.len() && v[j] != '.' && !is_space_char(v[j]) {
            j += 1;
        } else {
            return j;
        }
    }
}

pub open spec fn hyphen_run(s: Seq<char>, i: int) -> int
    decreases s.len() - i,
    when 0 <= i <= s.len()
{
    if i < s.len() && s[i] == '-' {
        hyphen_run(s, i + 1)
    } else {
        i
    }
}

pub proof fn lemma_hyphen_run(s: Seq<char>, i: int)
    requires
        0 <= i <= s.len(),
    ensures
        i <= hyphen_run(s, i) <= s.len(),
        forall|k: int| i <= k < hyphen_run(s, i) ==> s[k] == '-',
        hyphen_run(s, i) < s.len() ==> s[hyphen_run(s, i)] != '-',
    decreases s.len() - i,
{
    if i < s.len() && s[i] == '-' {
        lemma_hyphen_run(s, i + 1);
    }
}

pub fn hyphen_run_end(v: &Vec<char>, i: usize) -> (r: usize)
    requires
        i <= v.len(),
    ensures
        r == hyphen_run(v@, i as int),
{
    let mut j = i;
    loop
        invariant
            i <= j <= v.len(),
            hyphen_run(v@, i as int) == hyphen_run(v@, j as int),
        decreases v.len() - j,
    {
        if j < v.len() && v[j] == '-' {
            j += 1;
        } else {
            return j;
        }
    }
}

/// The first index at or after `i` holding character `c`, or the length of
/// `s` if there is none.
pub open spec fn find_from(s: Seq<char>, i: int, c: char) -> int
    decreases s.len() - i,
    when 0 <= i <= s.len()
{
    if i >= s.len() {
        s.len() as int
    } else if s[i] == c {
        i
    } else {
        find_from(s, i + 1, c)
    }
}

pub proof fn lemma_find_from(s: Seq<char>, i: int, c: char)
    requires
        0 <= i <= s.len(),
    ensures
        i <= find_from(s, i, c) <= s.len(),
        forall|k: int| i <= k < find_from(s, i, c) ==> s[k] != c,
        find_from(s, i, c) < s.len() ==> s[find_from(s, i, c)] == c,
    decreases s.len() - i,
{
    if i < s.len() && s[i] != c {
        lemma_find_from(s, i + 1, c);
    }
}

pub fn find_char_from(v: &Vec<char>, i: usize, c: char) -> (r: usize)
    requires
        i <= v.len(),
    ensures
        r == find_from(v@, i as int, c),
{
    let mut j = i;
    loop
        invariant
            i <= j <= v.len(),
            find_from(v@, i as int, c) == find_from(v@, j as int, c),
        decreases v.len() - j,
    {
        if j < v.len() {
            if v[j] == c {
                return j;
            }
            j += 1;
        } else {
            return j;
        }
    }
}

} // verus!
