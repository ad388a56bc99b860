//! The fixed catalog of token grammars.
//!
//! Each category has an anchored membership predicate (the whole text must
//! fit the grammar) and, where the category takes part in segmentation, a
//! prefix matcher that yields the length the grammar claims from a given
//! start position.  The prefix matchers follow leftmost greedy matching:
//! each repetition takes the longest run its class allows.

use vstd::prelude::*;
use crate::chars::{
    word_char, number_char, letter_char, punct_char,
    is_word_char, is_number_char, is_space_char, is_letter_char, is_punct_char,
};
use crate::scan::{
    hashtag_body_char, tag_inner_char,
    word_run, digit_run, nonspace_run, space_run, lower_run, hashtag_body_run,
    word_tail_run, tag_inner_run, nonspace_nondot_run, hyphen_run, find_from,
    lemma_word_run, lemma_digit_run, lemma_nonspace_run, lemma_space_run, lemma_lower_run,
    lemma_hashtag_body_run, lemma_word_tail_run, lemma_tag_inner_run,
    lemma_nonspace_nondot_run, lemma_hyphen_run, lemma_find_from,
    word_run_end, digit_run_end, nonspace_run_end, space_run_end, lower_run_end,
    hashtag_body_run_end, word_tail_run_end, tag_inner_run_end, nonspace_nondot_run_end,
    hyphen_run_end, find_char_from,
};

verus! {

// ---------------------------------------------------------------------------
// Anchored membership predicates
// ---------------------------------------------------------------------------

/// The hashtag shape: `#` followed by word characters and hyphens, opening
/// and closing on a word character.
pub open spec fn hashtag_pat(s: Seq<char>) -> bool {
    &&& s.len() >= 2
    &&& s[0] == '#'
    &&& word_char(s[1])
    &&& word_char(s[s.len() - 1])
    &&& forall|i: int| 1 <= i < s.len() ==> hashtag_body_char(s[i])
}

/// The all-digits exclusion: `#` followed only by number characters.
pub open spec fn numeric_hashtag(s: Seq<char>) -> bool {
    &&& s.len() >= 2
    &&& s[0] == '#'
    &&& forall|i: int| 1 <= i < s.len() ==> number_char(s[i])
}

/// A token is a hashtag when it fits the hashtag shape and is not purely
/// numeric.
pub open spec fn is_hashtag_text(s: Seq<char>) -> bool {
    hashtag_pat(s) && !numeric_hashtag(s)
}

/// A mention: `@` followed by one or more word characters.
pub open spec fn is_mention_text(s: Seq<char>) -> bool {
    &&& s.len() >= 2
    &&& s[0] == '@'
    &&& forall|i: int| 1 <= i < s.len() ==> word_char(s[i])
}

/// An HTML tag: `<`, a nonempty run without `>` or whitespace, then `>`.
pub open spec fn is_html_tag_text(s: Seq<char>) -> bool {
    &&& s.len() >= 3
    &&& s[0] == '<'
    &&& s[s.len() - 1] == '>'
    &&& forall|i: int| 1 <= i < s.len() - 1 ==> tag_inner_char(s[i])
}

/// The Weibo hashtag shape: `#`, a nonempty run without `#`, then `#`.
pub open spec fn is_weibo_hashtag_text(s: Seq<char>) -> bool {
    &&& s.len() >= 3
    &&& s[0] == '#'
    &&& s[s.len() - 1] == '#'
    &&& forall|i: int| 1 <= i < s.len() - 1 ==> s[i] != '#'
}

/// A punctuation token: exactly one character, of a punctuation category.
pub open spec fn is_punct_text(s: Seq<char>) -> bool {
    s.len() == 1 && punct_char(s[0])
}

#[verifier::loop_isolation(false)]
pub fn hashtag_pattern_match(v: &Vec<char>) -> (r: bool)
    ensures
        r == hashtag_pat(v@),
{
    let n = v.len();
    if n < 2 || v[0] != '#' || !is_word_char(v[1]) || !is_word_char(v[n - 1]) {
        return false;
    }
    let mut j: usize = 1;
    loop
        invariant
            1 <= j <= n,
            n == v.len(),
            forall|k: int| 1 <= k < j ==> hashtag_body_char(v@[k]),
        decreases n - j,
    {
        if j == n {
            return true;
        }
        if !(v[j] == '-' || is_word_char(v[j])) {
            return false;
        }
        j += 1;
    }
}

#[verifier::loop_isolation(false)]
pub fn numeric_hashtag_match(v: &Vec<char>) -> (r: bool)
    ensures
        r == numeric_hashtag(v@),
{
    let n = v.len();
    if n < 2 || v[0] != '#' {
        return false;
    }
    let mut j: usize = 1;
    loop
        invariant
            1 <= j <= n,
            n == v.len(),
            forall|k: int| 1 <= k < j ==> number_char(v@[k]),
        decreases n - j,
    {
        if j == n {
            return true;
        }
        if !is_number_char(v[j]) {
            return false;
        }
        j += 1;
    }
}

pub fn hashtag_match(v: &Vec<char>) -> (r: bool)
    ensures
        r == is_hashtag_text(v@),
{
    hashtag_pattern_match(v) && !numeric_hashtag_match(v)
}

#[verifier::loop_isolation(false)]
pub fn mention_match(v: &Vec<char>) -> (r: bool)
    ensures
        r == is_mention_text(v@),
{
    let n = v.len();
    if n < 2 || v[0] != '@' {
        return false;
    }
    let mut j: usize = 1;
    loop
        invariant
            1 <= j <= n,
            n == v.len(),
            forall|k: int| 1 <= k < j ==> word_char(v@[k]),
        decreases n - j,
    {
        if j == n {
            return true;
        }
        if !is_word_char(v[j]) {
            return false;
        }
        j += 1;
    }
}

#[verifier::loop_isolation(false)]
pub fn html_tag_match(v: &Vec<char>) -> (r: bool)
    ensures
        r == is_html_tag_text(v@),
{
    let n = v.len();
    if n < 3 || v[0] != '<' || v[n - 1] != '>' {
        return false;
    }
    let mut j: usize = 1;
    loop
        invariant
            1 <= j <= n - 1,
            3 <= n == v.len(),
            forall|k: int| 1 <= k < j ==> tag_inner_char(v@[k]),
        decreases n - j,
    {
        if j == n - 1 {
            return true;
        }
        if v[j] == '>' || is_space_char(v[j]) {
            return false;
        }
        j += 1;
    }
}

#[verifier::loop_isolation(false)]
pub fn weibo_hashtag_match(v: &Vec<char>) -> (r: bool)
    ensures
        r == is_weibo_hashtag_text(v@),
{
    let n = v.len();
    if n < 3 || v[0] != '#' || v[n - 1] != '#' {
        return false;
    }
    let mut j: usize = 1;
    loop
        invariant
            1 <= j <= n - 1,
            3 <= n == v.len(),
            forall|k: int| 1 <= k < j ==> v@[k] != '#',
        decreases n - j,
    {
        if j == n - 1 {
            return true;
        }
        if v[j] == '#' {
            return false;
        }
        j += 1;
    }
}

pub fn punct_match(v: &Vec<char>) -> (r: bool)
    ensures
        r == is_punct_text(v@),
{
    v.len() == 1 && is_punct_char(v[0])
}

// ---------------------------------------------------------------------------
// Prefix matchers for segmentation
// ---------------------------------------------------------------------------

/// The length of `http://` or `https://` if one of them starts at `i`.
pub open spec fn http_prefix_len(s: Seq<char>, i: int) -> Option<int> {
    if i + 7 <= s.len() && s[i] == 'h' && s[i + 1] == 't' && s[i + 2] == 't' && s[i + 3] == 'p'
        && s[i + 4] == ':' && s[i + 5] == '/' && s[i + 6] == '/' {
        Some(7)
    } else if i + 8 <= s.len() && s[i] == 'h' && s[i + 1] == 't' && s[i + 2] == 't'
        && s[i + 3] == 'p' && s[i + 4] == 's' && s[i + 5] == ':' && s[i + 6] == '/'
        && s[i + 7] == '/' {
        Some(8)
    } else {
        None
    }
}

/// The URL grammar, from position `i`.  Scheme form: `http(s)://`, a
/// nonempty run without whitespace or dots, a dot, then at least two
/// characters without whitespace.  Bare form: `www.`, then a run without
/// whitespace that holds a further dot with at least one character before it
/// and at least two after it.
pub open spec fn url_len_at(s: Seq<char>, i: int) -> Option<int>
    recommends
        0 <= i <= s.len(),
{
    match http_prefix_len(s, i) {
        Some(pl) => {
            let p = i + pl;
            let q = nonspace_nondot_run(s, p);
            if p < q && q < s.len() && s[q] == '.' {
                let e = nonspace_run(s, q + 1);
                if e - (q + 1) >= 2 {
                    Some(e - i)
                } else {
                    None
                }
            } else {
                None
            }
        },
        None => {
            if i + 4 <= s.len() && s[i] == 'w' && s[i + 1] == 'w' && s[i + 2] == 'w'
                && s[i + 3] == '.' {
                let e = nonspace_run(s, i + 4);
                if i + 5 <= e && find_from(s, i + 5, '.') + 3 <= e {
                    Some(e - i)
                } else {
                    None
                }
            } else {
                None
            }
        },
    }
}

pub proof fn lemma_url_len_at(s: Seq<char>, i: int)
    requires
        0 <= i <= s.len(),
    ensures
        url_len_at(s, i) matches Some(l) ==> 1 <= l <= s.len() - i,
{
    match http_prefix_len(s, i) {
        Some(pl) => {
            let p = i + pl;
            lemma_nonspace_nondot_run(s, p);
            let q = nonspace_nondot_run(s, p);
            if p < q && q < s.len() && s[q] == '.' {
                lemma_nonspace_run(s, q + 1);
            }
        },
        None => {
            if i + 4 <= s.len() && s[i] == 'w' && s[i + 1] == 'w' && s[i + 2] == 'w'
                && s[i + 3] == '.' {
                lemma_nonspace_run(s, i + 4);
            }
        },
    }
}

pub fn http_prefix_at(v: &Vec<char>, i: usize) -> (r: Option<usize>)
    requires
        i <= v.len(),
    ensures
        http_prefix_len(v@, i as int) == (match r {
            Some(l) => Some(l as int),
            None => None::<int>,
        }),
{
    let n = v.len();
    if n - i >= 7 && v[i] == 'h' && v[i + 1] == 't' && v[i + 2] == 't' && v[i + 3] == 'p'
        && v[i + 4] == ':' && v[i + 5] == '/' && v[i + 6] == '/' {
        Some(7)
    } else if n - i >= 8 && v[i] == 'h' && v[i + 1] == 't' && v[i + 2] == 't' && v[i + 3] == 'p'
        && v[i + 4] == 's' && v[i + 5] == ':' && v[i + 6] == '/' && v[i + 7] == '/' {
        Some(8)
    } else {
        None
    }
}

pub fn url_match_at(v: &Vec<char>, i: usize) -> (r: Option<usize>)
    requires
        i <= v.len(),
    ensures
        url_len_at(v@, i as int) == (match r {
            Some(l) => Some(l as int),
            None => None::<int>,
        }),
{
    match http_prefix_at(v, i) {
        Some(pl) => {
            let p = i + pl;
            let q = nonspace_nondot_run_end(v, p);
            proof {
                lemma_nonspace_nondot_run(v@, p as int);
            }
            if p < q && q < v.len() && v[q] == '.' {
                let e = nonspace_run_end(v, q + 1);
                proof {
                    lemma_nonspace_run(v@, (q + 1) as int);
                }
                if e - (q + 1) >= 2 {
                    Some(e - i)
                } else {
                    None
                }
            } else {
                None
            }
        },
        None => {
            let n = v.len();
            if n - i >= 4 && v[i] == 'w' && v[i + 1] == 'w' && v[i + 2] == 'w' && v[i + 3] == '.' {
                let e = nonspace_run_end(v, i + 4);
                proof {
                    lemma_nonspace_run(v@, (i + 4) as int);
                }
                if e - i >= 5 {
                    let d = find_char_from(v, i + 5, '.');
                    proof {
                        lemma_find_from(v@, (i + 5) as int, '.');
                    }
                    if e >= 3 && d <= e - 3 {
                        Some(e - i)
                    } else {
                        None
                    }
                } else {
                    None
                }
            } else {
                None
            }
        },
    }
}

/// A token is a URL when the URL grammar claims the whole of it.
pub open spec fn is_url_text(s: Seq<char>) -> bool {
    url_len_at(s, 0) == Some(s.len() as int)
}

pub fn url_match(v: &Vec<char>) -> (r: bool)
    ensures
        r == is_url_text(v@),
{
    match url_match_at(v, 0) {
        Some(l) => l == v.len(),
        None => false,
    }
}

// ---------------------------------------------------------------------------
// Email
// ---------------------------------------------------------------------------

/// A character of the local part of an email other than the separating dot.
pub open spec fn local_char(c: char) -> bool {
    word_char(c) || c == '+' || c == '-'
}

/// The local part of an email: nonempty, of word characters, `+`, `-` and
/// separating dots, opening and closing on a non-dot, with no two dots in a
/// row.
pub open spec fn local_ok(t: Seq<char>) -> bool {
    &&& t.len() >= 1
    &&& forall|i: int| 0 <= i < t.len() ==> (local_char(t[i]) || t[i] == '.')
    &&& local_char(t[0])
    &&& local_char(t[t.len() - 1])
    &&& forall|i: int| 0 <= i < t.len() - 1 ==> !(#[trigger] t[i] == '.' && t[i + 1] == '.')
}

/// The head of an email domain over `[p, m)`: nonempty, of word characters
/// and single hyphens, opening and closing on a word character.
pub open spec fn domain_head_ok(s: Seq<char>, p: int, m: int) -> bool {
    &&& p < m
    &&& word_char(s[p])
    &&& word_char(s[m - 1])
    &&& forall|k: int| p <= k < m - 1 ==> !(#[trigger] s[k] == '-' && s[k + 1] == '-')
}

/// A top-level label: a dot followed by at least two lowercase ASCII
/// letters; yields the position after the label.
pub open spec fn label_end(s: Seq<char>, pos: int) -> Option<int>
    recommends
        0 <= pos <= s.len(),
{
    if pos < s.len() && s[pos] == '.' {
        let r = lower_run(s, pos + 1);
        if r - (pos + 1) >= 2 {
            Some(r)
        } else {
            None
        }
    } else {
        None
    }
}

/// One to three labels, taken greedily.
pub open spec fn labels_end(s: Seq<char>, m: int) -> Option<int>
    recommends
        0 <= m <= s.len(),
{
    match label_end(s, m) {
        None => None,
        Some(e1) => match label_end(s, e1) {
            None => Some(e1),
            Some(e2) => match label_end(s, e2) {
                None => Some(e2),
                Some(e3) => Some(e3),
            },
        },
    }
}

/// The email grammar from position `i`: a local part up to the first `@`,
/// then a domain head, then one to three dot-separated labels.
pub open spec fn email_len_at(s: Seq<char>, i: int) -> Option<int>
    recommends
        0 <= i <= s.len(),
{
    let j = find_from(s, i, '@');
    if j < s.len() && i < j && local_ok(s.subrange(i, j)) {
        let m = hashtag_body_run(s, j + 1);
        if domain_head_ok(s, j + 1, m) {
            match labels_end(s, m) {
                Some(e) => Some(e - i),
                None => None,
            }
        } else {
            None
        }
    } else {
        None
    }
}

pub proof fn lemma_label_end(s: Seq<char>, pos: int)
    requires
        0 <= pos <= s.len(),
    ensures
        label_end(s, pos) matches Some(e) ==> pos + 3 <= e <= s.len(),
{
    if pos < s.len() && s[pos] == '.' {
        lemma_lower_run(s, pos + 1);
    }
}

pub proof fn lemma_labels_end(s: Seq<char>, m: int)
    requires
        0 <= m <= s.len(),
    ensures
        labels_end(s, m) matches Some(e) ==> m + 3 <= e <= s.len(),
{
    lemma_label_end(s, m);
    match label_end(s, m) {
        None => {},
        Some(e1) => {
            lemma_label_end(s, e1);
            match label_end(s, e1) {
                None => {},
                Some(e2) => {
                    lemma_label_end(s, e2);
                },
            }
        },
    }
}

pub proof fn lemma_email_len_at(s: Seq<char>, i: int)
    requires
        0 <= i <= s.len(),
    ensures
        email_len_at(s, i) matches Some(l) ==> 1 <= l <= s.len() - i,
{
    lemma_find_from(s, i, '@');
    let j = find_from(s, i, '@');
    if j < s.len() && i < j && local_ok(s.subrange(i, j)) {
        lemma_hashtag_body_run(s, j + 1);
        let m = hashtag_body_run(s, j + 1);
        if domain_head_ok(s, j + 1, m) {
            lemma_labels_end(s, m);
        }
    }
}

#[verifier::loop_isolation(false)]
pub fn local_ok_check(v: &Vec<char>, from: usize, to: usize) -> (r: bool)
    requires
        from <= to <= v.len(),
    ensures
        r == local_ok(v@.subrange(from as int, to as int)),
{
    let ghost t = v@.subrange(from as int, to as int);
    if to == from {
        return false;
    }
    let c0 = v[from];
    let cl = v[to - 1];
    if !(c0 == '+' || c0 == '-' || is_word_char(c0)) {
        return false;
    }
    if !(cl == '+' || cl == '-' || is_word_char(cl)) {
        return false;
    }
    let mut j = from;
    loop
        invariant
            from <= j <= to <= v.len(),
            t == v@.subrange(from as int, to as int),
            t.len() == to - from,
            forall|k: int| 0 <= k < j - from ==> (local_char(t[k]) || t[k] == '.'),
            forall|k: int| 0 <= k < j - from - 1 ==> !(#[trigger] t[k] == '.' && t[k + 1] == '.'),
            local_char(t[0]),
            local_char(t[t.len() - 1]),
        decreases to - j,
    {
        if j == to {
            return true;
        }
        let c = v[j];
        assert(t[j - from] == c);
        if !(c == '+' || c == '-' || c == '.' || is_word_char(c)) {
            return false;
        }
        if c == '.' && j > from && v[j - 1] == '.' {
            assert(t[j - from - 1] == v@[j - 1]);
            return false;
        }
        j += 1;
    }
}

#[verifier::loop_isolation(false)]
pub fn domain_head_check(v: &Vec<char>, p: usize, m: usize) -> (r: bool)
    requires
        p <= v.len(),
        m <= v.len(),
    ensures
        r == domain_head_ok(v@, p as int, m as int),
{
    if m <= p {
        return false;
    }
    if !is_word_char(v[p]) || !is_word_char(v[m - 1]) {
        return false;
    }
    let mut j = p;
    loop
        invariant
            p <= j <= m <= v.len(),
            word_char(v@[p as int]),
            word_char(v@[m - 1]),
            p < m,
            forall|k: int| p <= k < j ==> !(#[trigger] v@[k] == '-' && v@[k + 1] == '-'),
        decreases m - j,
    {
        if j >= m - 1 {
            return true;
        }
        if v[j] == '-' && v[j + 1] == '-' {
            return false;
        }
        j += 1;
    }
}

pub fn label_end_at(v: &Vec<char>, pos: usize) -> (r: Option<usize>)
    requires
        pos <= v.len(),
    ensures
        label_end(v@, pos as int) == (match r {
            Some(e) => Some(e as int),
            None => None::<int>,
        }),
        r matches Some(e) ==> pos < e <= v.len(),
{
    if pos < v.len() && v[pos] == '.' {
        let rr = lower_run_end(v, pos + 1);
        proof {
            lemma_lower_run(v@, (pos + 1) as int);
        }
        if rr - (pos + 1) >= 2 {
            Some(rr)
        } else {
            None
        }
    } else {
        None
    }
}

pub fn labels_end_at(v: &Vec<char>, m: usize) -> (r: Option<usize>)
    requires
        m <= v.len(),
    ensures
        labels_end(v@, m as int) == (match r {
            Some(e) => Some(e as int),
            None => None::<int>,
        }),
        r matches Some(e) ==> e <= v.len(),
{
    match label_end_at(v, m) {
        None => None,
        Some(e1) => match label_end_at(v, e1) {
            None => Some(e1),
            Some(e2) => match label_end_at(v, e2) {
                None => Some(e2),
                Some(e3) => Some(e3),
            },
        },
    }
}

pub fn email_match_at(v: &Vec<char>, i: usize) -> (r: Option<usize>)
    requires
        i <= v.len(),
    ensures
        email_len_at(v@, i as int) == (match r {
            Some(l) => Some(l as int),
            None => None::<int>,
        }),
{
    let j = find_char_from(v, i, '@');
    proof {
        lemma_find_from(v@, i as int, '@');
    }
    if j < v.len() && i < j && local_ok_check(v, i, j) {
        let m = hashtag_body_run_end(v, j + 1);
        proof {
            lemma_hashtag_body_run(v@, (j + 1) as int);
        }
        if domain_head_check(v, j + 1, m) {
            match labels_end_at(v, m) {
                Some(e) => Some(e - i),
                None => None,
            }
        } else {
            None
        }
    } else {
        None
    }
}

/// A token is an email when the email grammar claims the whole of it.
pub open spec fn is_email_text(s: Seq<char>) -> bool {
    email_len_at(s, 0) == Some(s.len() as int)
}

pub fn email_match(v: &Vec<char>) -> (r: bool)
    ensures
        r == is_email_text(v@),
{
    match email_match_at(v, 0) {
        Some(l) => l == v.len(),
        None => false,
    }
}

// ---------------------------------------------------------------------------
// Digit
// ---------------------------------------------------------------------------

pub open spec fn digit_sep(c: char) -> bool {
    c == ',' || c == '/' || c == '.' || c == ':' || c == '-'
}

pub open spec fn sign_char(c: char) -> bool {
    c == '+' || c == '-'
}

/// The digit grammar from position `i`: an optional sign, a nonempty digit
/// run, an optional single separator, a further digit run, and an optional
/// trailing sign.
pub open spec fn digit_len_at(s: Seq<char>, i: int) -> Option<int>
    recommends
        0 <= i <= s.len(),
{
    let p = if i < s.len() && sign_char(s[i]) {
        i + 1
    } else {
        i
    };
    let d1 = digit_run(s, p);
    if d1 == p {
        None
    } else {
        let p2 = if d1 < s.len() && digit_sep(s[d1]) {
            d1 + 1
        } else {
            d1
        };
        let d2 = digit_run(s, p2);
        let p3 = if d2 < s.len() && sign_char(s[d2]) {
            d2 + 1
        } else {
            d2
        };
        Some(p3 - i)
    }
}

pub proof fn lemma_digit_len_at(s: Seq<char>, i: int)
    requires
        0 <= i <= s.len(),
    ensures
        digit_len_at(s, i) matches Some(l) ==> 1 <= l <= s.len() - i,
{
    let p = if i < s.len() && sign_char(s[i]) {
        i + 1
    } else {
        i
    };
    lemma_digit_run(s, p);
    let d1 = digit_run(s, p);
    if d1 != p {
        let p2 = if d1 < s.len() && digit_sep(s[d1]) {
            d1 + 1
        } else {
            d1
        };
        lemma_digit_run(s, p2);
    }
}

pub fn digit_match_at(v: &Vec<char>, i: usize) -> (r: Option<usize>)
    requires
        i <= v.len(),
    ensures
        digit_len_at(v@, i as int) == (match r {
            Some(l) => Some(l as int),
            None => None::<int>,
        }),
{
    let p = if i < v.len() && (v[i] == '+' || v[i] == '-') {
        i + 1
    } else {
        i
    };
    let d1 = digit_run_end(v, p);
    proof {
        lemma_digit_run(v@, p as int);
    }
    if d1 == p {
        None
    } else {
        let p2 = if d1 < v.len()
            && (v[d1] == ',' || v[d1] == '/' || v[d1] == '.' || v[d1] == ':' || v[d1] == '-') {
            d1 + 1
        } else {
            d1
        };
        let d2 = digit_run_end(v, p2);
        proof {
            lemma_digit_run(v@, p2 as int);
        }
        let p3 = if d2 < v.len() && (v[d2] == '+' || v[d2] == '-') {
            d2 + 1
        } else {
            d2
        };
        Some(p3 - i)
    }
}

/// A token is a digit token when the digit grammar claims the whole of it.
pub open spec fn is_digit_text(s: Seq<char>) -> bool {
    digit_len_at(s, 0) == Some(s.len() as int)
}

pub fn digit_match(v: &Vec<char>) -> (r: bool)
    ensures
        r == is_digit_text(v@),
{
    match digit_match_at(v, 0) {
        Some(l) => l == v.len(),
        None => false,
    }
}

// ---------------------------------------------------------------------------
// Remaining segmentation branches
// ---------------------------------------------------------------------------

/// Mention branch: `@` followed by a nonempty word run.
pub open spec fn mention_len_at(s: Seq<char>, i: int) -> Option<int>
    recommends
        0 <= i <= s.len(),
{
    if i < s.len() && s[i] == '@' {
        let r = word_run(s, i + 1);
        if r > i + 1 {
            Some(r - i)
        } else {
            None
        }
    } else {
        None
    }
}

pub fn mention_match_at(v: &Vec<char>, i: usize) -> (r: Option<usize>)
    requires
        i <= v.len(),
    ensures
        mention_len_at(v@, i as int) == (match r {
            Some(l) => Some(l as int),
            None => None::<int>,
        }),
        r matches Some(l) ==> 1 <= l <= v.len() - i,
{
    if i < v.len() && v[i] == '@' {
        let rr = word_run_end(v, i + 1);
        proof {
            lemma_word_run(v@, (i + 1) as int);
        }
        if rr > i + 1 {
            Some(rr - i)
        } else {
            None
        }
    } else {
        None
    }
}

/// Hashtag branch: `#`, a word character, then the word-and-hyphen run with
/// trailing hyphens given back so that the match closes on a word character.
pub open spec fn trim_hyphens(s: Seq<char>, t: int) -> int
    decreases t,
    when 0 <= t <= s.len()
{
    if t > 0 && s[t - 1] == '-' {
        trim_hyphens(s, t - 1)
    } else {
        t
    }
}

pub proof fn lemma_trim_hyphens(s: Seq<char>, t: int)
    requires
        0 <= t <= s.len(),
    ensures
        0 <= trim_hyphens(s, t) <= t,
        forall|k: int| trim_hyphens(s, t) <= k < t ==> s[k] == '-',
        trim_hyphens(s, t) > 0 ==> s[trim_hyphens(s, t) - 1] != '-',
    decreases t,
{
    if t > 0 && s[t - 1] == '-' {
        lemma_trim_hyphens(s, t - 1);
    }
}

pub open spec fn hashtag_len_at(s: Seq<char>, i: int) -> Option<int>
    recommends
        0 <= i <= s.len(),
{
    if i + 1 < s.len() && s[i] == '#' && word_char(s[i + 1]) {
        let r = hashtag_body_run(s, i + 1);
        Some(trim_hyphens(s, r) - i)
    } else {
        None
    }
}

pub proof fn lemma_hashtag_len_at(s: Seq<char>, i: int)
    requires
        0 <= i <= s.len(),
    ensures
        hashtag_len_at(s, i) matches Some(l) ==> 1 <= l <= s.len() - i,
{
    if i + 1 < s.len() && s[i] == '#' && word_char(s[i + 1]) {
        lemma_hashtag_body_run(s, i + 1);
        let r = hashtag_body_run(s, i + 1);
        lemma_trim_hyphens(s, r);
        assert(r > i + 1);
        if trim_hyphens(s, r) <= i {
            assert(s[i] == '-');
        }
    }
}

#[verifier::loop_isolation(false)]
pub fn hashtag_match_at(v: &Vec<char>, i: usize) -> (r: Option<usize>)
    requires
        i <= v.len(),
    ensures
        hashtag_len_at(v@, i as int) == (match r {
            Some(l) => Some(l as int),
            None => None::<int>,
        }),
{
    if i < v.len() && v.len() - i >= 2 && v[i] == '#' && is_word_char(v[i + 1]) {
        let rr = hashtag_body_run_end(v, i + 1);
        proof {
            lemma_hashtag_body_run(v@, (i + 1) as int);
        }
        let mut t = rr;
        loop
            invariant
                i < t <= rr <= v.len(),
                trim_hyphens(v@, rr as int) == trim_hyphens(v@, t as int),
            decreases t,
        {
            if v[t - 1] == '-' {
                t -= 1;
            } else {
                return Some(t - i);
            }
        }
    } else {
        None
    }
}

/// ASCII arrow branch: a run of hyphens closed by `>`, or `<` followed by a
/// run of hyphens.
pub open spec fn arrow_len_at(s: Seq<char>, i: int) -> Option<int>
    recommends
        0 <= i <= s.len(),
{
    if i < s.len() && s[i] == '<' {
        let h = hyphen_run(s, i + 1);
        if h > i + 1 {
            Some(h - i)
        } else {
            None
        }
    } else {
        let h = hyphen_run(s, i);
        if h > i && h < s.len() && s[h] == '>' {
            Some(h + 1 - i)
        } else {
            None
        }
    }
}

pub fn arrow_match_at(v: &Vec<char>, i: usize) -> (r: Option<usize>)
    requires
        i <= v.len(),
    ensures
        arrow_len_at(v@, i as int) == (match r {
            Some(l) => Some(l as int),
            None => None::<int>,
        }),
        r matches Some(l) ==> 1 <= l <= v.len() - i,
{
    if i < v.len() && v[i] == '<' {
        let h = hyphen_run_end(v, i + 1);
        proof {
            lemma_hyphen_run(v@, (i + 1) as int);
        }
        if h > i + 1 {
            Some(h - i)
        } else {
            None
        }
    } else {
        let h = hyphen_run_end(v, i);
        proof {
            lemma_hyphen_run(v@, i as int);
        }
        if h > i && h < v.len() && v[h] == '>' {
            Some(h + 1 - i)
        } else {
            None
        }
    }
}

/// HTML tag branch.
pub open spec fn html_len_at(s: Seq<char>, i: int) -> Option<int>
    recommends
        0 <= i <= s.len(),
{
    if i < s.len() && s[i] == '<' {
        let q = tag_inner_run(s, i + 1);
        if q > i + 1 && q < s.len() && s[q] == '>' {
            Some(q + 1 - i)
        } else {
            None
        }
    } else {
        None
    }
}

pub fn html_match_at(v: &Vec<char>, i: usize) -> (r: Option<usize>)
    requires
        i <= v.len(),
    ensures
        html_len_at(v@, i as int) == (match r {
            Some(l) => Some(l as int),
            None => None::<int>,
        }),
        r matches Some(l) ==> 1 <= l <= v.len() - i,
{
    if i < v.len() && v[i] == '<' {
        let q = tag_inner_run_end(v, i + 1);
        proof {
            lemma_tag_inner_run(v@, (i + 1) as int);
        }
        if q > i + 1 && q < v.len() && v[q] == '>' {
            Some(q + 1 - i)
        } else {
            None
        }
    } else {
        None
    }
}

/// Ellipsis tail: after a dot, repeatedly consume optional whitespace
/// followed by a further dot.
pub open spec fn ellipsis_tail(s: Seq<char>, pos: int) -> int
    decreases s.len() - pos,
    when 0 <= pos <= s.len()
    via ellipsis_tail_dec
{
    let w = space_run(s, pos);
    if w < s.len() && s[w] == '.' {
        ellipsis_tail(s, w + 1)
    } else {
        pos
    }
}

#[via_fn]
proof fn ellipsis_tail_dec(s: Seq<char>, pos: int) {
    lemma_space_run(s, pos);
}

pub proof fn lemma_ellipsis_tail(s: Seq<char>, pos: int)
    requires
        0 <= pos <= s.len(),
    ensures
        pos <= ellipsis_tail(s, pos) <= s.len(),
    decreases s.len() - pos,
{
    lemma_space_run(s, pos);
    let w = space_run(s, pos);
    if w < s.len() && s[w] == '.' {
        lemma_ellipsis_tail(s, w + 1);
    }
}

pub open spec fn ellipsis_len_at(s: Seq<char>, i: int) -> Option<int>
    recommends
        0 <= i <= s.len(),
{
    if i < s.len() && s[i] == '.' {
        let e = ellipsis_tail(s, i + 1);
        if e > i + 1 {
            Some(e - i)
        } else {
            None
        }
    } else {
        None
    }
}

#[verifier::loop_isolation(false)]
pub fn ellipsis_match_at(v: &Vec<char>, i: usize) -> (r: Option<usize>)
    requires
        i <= v.len(),
    ensures
        ellipsis_len_at(v@, i as int) == (match r {
            Some(l) => Some(l as int),
            None => None::<int>,
        }),
        r matches Some(l) ==> 1 <= l <= v.len() - i,
{
    if i < v.len() && v[i] == '.' {
        let mut pos = i + 1;
        loop
            invariant
                i + 1 <= pos <= v.len(),
                ellipsis_tail(v@, (i + 1) as int) == ellipsis_tail(v@, pos as int),
            decreases v.len() - pos,
        {
            let w = space_run_end(v, pos);
            proof {
                lemma_space_run(v@, pos as int);
            }
            if w < v.len() && v[w] == '.' {
                pos = w + 1;
            } else {
                if pos > i + 1 {
                    return Some(pos - i);
                } else {
                    return None;
                }
            }
        }
    } else {
        None
    }
}

/// Emoji alias branch: `:`, a nonempty word run, then `:`.
pub open spec fn alias_len_at(s: Seq<char>, i: int) -> Option<int>
    recommends
        0 <= i <= s.len(),
{
    if i < s.len() && s[i] == ':' {
        let r = word_run(s, i + 1);
        if r > i + 1 && r < s.len() && s[r] == ':' {
            Some(r + 1 - i)
        } else {
            None
        }
    } else {
        None
    }
}

pub fn alias_match_at(v: &Vec<char>, i: usize) -> (r: Option<usize>)
    requires
        i <= v.len(),
    ensures
        alias_len_at(v@, i as int) == (match r {
            Some(l) => Some(l as int),
            None => None::<int>,
        }),
        r matches Some(l) ==> 1 <= l <= v.len() - i,
{
    if i < v.len() && v[i] == ':' {
        let rr = word_run_end(v, i + 1);
        proof {
            lemma_word_run(v@, (i + 1) as int);
        }
        if rr > i + 1 && rr < v.len() && v[rr] == ':' {
            Some(rr + 1 - i)
        } else {
            None
        }
    } else {
        None
    }
}

/// Generic word branch: a letter followed by a nonempty run of word-tail
/// characters.
pub open spec fn word_len_at(s: Seq<char>, i: int) -> Option<int>
    recommends
        0 <= i <= s.len(),
{
    if i < s.len() && letter_char(s[i]) {
        let r = word_tail_run(s, i + 1);
        if r > i + 1 {
            Some(r - i)
        } else {
            None
        }
    } else {
        None
    }
}

pub fn word_match_at(v: &Vec<char>, i: usize) -> (r: Option<usize>)
    requires
        i <= v.len(),
    ensures
        word_len_at(v@, i as int) == (match r {
            Some(l) => Some(l as int),
            None => None::<int>,
        }),
        r matches Some(l) ==> 1 <= l <= v.len() - i,
{
    if i < v.len() && is_letter_char(v[i]) {
        let rr = word_tail_run_end(v, i + 1);
        proof {
            lemma_word_tail_run(v@, (i + 1) as int);
        }
        if rr > i + 1 {
            Some(rr - i)
        } else {
            None
        }
    } else {
        None
    }
}

// ---------------------------------------------------------------------------
// Laws about the hashtag predicate
// ---------------------------------------------------------------------------

/// A string of `#` followed by one or more number characters is never a
/// hashtag.
pub proof fn lemma_numeric_hashtag_rejected(s: Seq<char>)
    requires
        s.len() >= 2,
        s[0] == '#',
        forall|i: int| 1 <= i < s.len() ==> number_char(s[i]),
    ensures
        !is_hashtag_text(s),
{
}

/// A string that fits the hashtag shape and holds at least one word
/// character that is not a number character is always a hashtag.
pub proof fn lemma_mixed_hashtag_accepted(s: Seq<char>, w: int)
    requires
        hashtag_pat(s),
        1 <= w < s.len(),
        word_char(s[w]),
        !number_char(s[w]),
    ensures
        is_hashtag_text(s),
{
}

} // verus!
