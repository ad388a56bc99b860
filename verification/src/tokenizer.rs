//! Segmentation of a cleaned text into tokens.
//!
//! The composite grammar is an ordered alternation: at each position the
//! branches are tried in a fixed order (URL, email, mention, hashtag, HTML
//! tag, ASCII arrow, digit, ellipsis, emoji alias, word) and the first that
//! matches claims its span; any other non-whitespace character stands alone
//! as a one-character token.  Whitespace separates tokens and is dropped.

use vstd::prelude::*;
use crate::chars::space_char;
use crate::patterns::{
    url_len_at, email_len_at, mention_len_at, hashtag_len_at, html_len_at, arrow_len_at,
    digit_len_at, ellipsis_len_at, alias_len_at, word_len_at, lemma_url_len_at,
    lemma_email_len_at, lemma_hashtag_len_at, lemma_digit_len_at, lemma_ellipsis_tail,
    url_match_at, email_match_at, mention_match_at, hashtag_match_at, html_match_at,
    arrow_match_at, digit_match_at, ellipsis_match_at, alias_match_at, word_match_at,
};
use crate::scan::{
    lemma_word_run, lemma_hyphen_run, lemma_tag_inner_run, lemma_word_tail_run,
};
use crate::strutil::{str_chars, chars_string_range};
use crate::token::Token;

verus! {

/// The length of the token that the composite alternation claims at
/// position `i`: the first branch that matches wins; the fallback is a
/// single character.
pub open spec fn token_len_at(s: Seq<char>, i: int) -> int
    recommends
        0 <= i < s.len(),
{
    match url_len_at(s, i) {
        Some(l) => l,
        None => match email_len_at(s, i) {
            Some(l) => l,
            None => match mention_len_at(s, i) {
                Some(l) => l,
                None => match hashtag_len_at(s, i) {
                    Some(l) => l,
                    None => match html_len_at(s, i) {
                        Some(l) => l,
                        None => match arrow_len_at(s, i) {
                            Some(l) => l,
                            None => match digit_len_at(s, i) {
                                Some(l) => l,
                                None => match ellipsis_len_at(s, i) {
                                    Some(l) => l,
                                    None => match alias_len_at(s, i) {
                                        Some(l) => l,
                                        None => match word_len_at(s, i) {
                                            Some(l) => l,
                                            None => 1,
                                        },
                                    },
                                },
                            },
                        },
                    },
                },
            },
        },
    }
}

pub proof fn lemma_token_len_at(s: Seq<char>, i: int)
    requires
        0 <= i < s.len(),
    ensures
        1 <= token_len_at(s, i) <= s.len() - i,
{
    lemma_url_len_at(s, i);
    lemma_email_len_at(s, i);
    lemma_hashtag_len_at(s, i);
    lemma_digit_len_at(s, i);
    if i < s.len() && s[i] == '@' {
        lemma_word_run(s, i + 1);
    }
    if i < s.len() && s[i] == '<' {
        lemma_hyphen_run(s, i + 1);
        lemma_tag_inner_run(s, i + 1);
    }
    lemma_hyphen_run(s, i);
    if i < s.len() && s[i] == '.' {
        lemma_ellipsis_tail(s, i + 1);
    }
    if i < s.len() && s[i] == ':' {
        lemma_word_run(s, i + 1);
    }
    lemma_word_tail_run(s, i + 1);
}

/// The sequence of token texts that segmentation yields from position `i`
/// on.
pub open spec fn tokenize_from(s: Seq<char>, i: int) -> Seq<Seq<char>>
    decreases s.len() - i,
    when 0 <= i <= s.len()
    via tokenize_from_dec
{
    if i >= s.len() {
        Seq::empty()
    } else if space_char(s[i]) {
        tokenize_from(s, i + 1)
    } else {
        seq![s.subrange(i, i + token_len_at(s, i))] + tokenize_from(s, i + token_len_at(s, i))
    }
}

#[via_fn]
proof fn tokenize_from_dec(s: Seq<char>, i: int) {
    if i < s.len() && !space_char(s[i]) {
        lemma_token_len_at(s, i);
    }
}

/// The sequence of token texts of a whole text.
pub open spec fn tokenize_text(s: Seq<char>) -> Seq<Seq<char>> {
    tokenize_from(s, 0)
}

/// Every token that segmentation yields is nonempty.
pub proof fn lemma_tokenize_from_nonempty(s: Seq<char>, i: int)
    requires
        0 <= i <= s.len(),
    ensures
        forall|k: int| 0 <= k < tokenize_from(s, i).len() ==> tokenize_from(s, i)[k].len() >= 1,
    decreases s.len() - i,
{
    if i >= s.len() {
        assert(tokenize_from(s, i) == Seq::<Seq<char>>::empty());
    } else if space_char(s[i]) {
        lemma_tokenize_from_nonempty(s, i + 1);
        assert(tokenize_from(s, i) == tokenize_from(s, i + 1));
    } else {
        lemma_token_len_at(s, i);
        let l = token_len_at(s, i);
        assert(1 <= l <= s.len() - i);
        lemma_tokenize_from_nonempty(s, i + l);
        assert(tokenize_from(s, i) == seq![s.subrange(i, i + l)] + tokenize_from(s, i + l));
        assert forall|k: int| 0 <= k < tokenize_from(s, i).len() implies tokenize_from(s, i)[k].len()
            >= 1 by {
            if k == 0 {
                assert(tokenize_from(s, i)[0] == s.subrange(i, i + l));
            } else {
                assert(tokenize_from(s, i)[k] == tokenize_from(s, i + l)[k - 1]);
            }
        }
    }
}

/// The texts of a token sequence.
pub open spec fn token_values(ts: Seq<Token>) -> Seq<Seq<char>> {
    Seq::new(ts.len(), |k: int| ts[k].value@)
}

/// The first-matching branch length at position `i`.
pub fn token_first_match(v: &Vec<char>, i: usize) -> (l: usize)
    requires
        i < v.len(),
    ensures
        l as int == token_len_at(v@, i as int),
        1 <= l <= v.len() - i,
{
    proof {
        lemma_token_len_at(v@, i as int);
    }
    match url_match_at(v, i) {
        Some(l) => l,
        None => match email_match_at(v, i) {
            Some(l) => l,
            None => match mention_match_at(v, i) {
                Some(l) => l,
                None => match hashtag_match_at(v, i) {
                    Some(l) => l,
                    None => match html_match_at(v, i) {
                        Some(l) => l,
                        None => match arrow_match_at(v, i) {
                            Some(l) => l,
                            None => match digit_match_at(v, i) {
                                Some(l) => l,
                                None => match ellipsis_match_at(v, i) {
                                    Some(l) => l,
                                    None => match alias_match_at(v, i) {
                                        Some(l) => l,
                                        None => match word_match_at(v, i) {
                                            Some(l) => l,
                                            None => 1,
                                        },
                                    },
                                },
                            },
                        },
                    },
                },
            },
        },
    }
}

/// Segments a text into its tokens, in order.
#[verifier::loop_isolation(false)]
pub fn tweet_tokenize(text: String) -> (r: Vec<Token>)
    ensures
        token_values(r@) == tokenize_text(text@),
{
    let v = str_chars(text.as_str());
    let mut out: Vec<Token> = Vec::new();
    let mut i: usize = 0;
    while i < v.len()
        invariant
            i <= v.len(),
            token_values(out@) + tokenize_from(v@, i as int) == tokenize_text(text@),
        decreases v.len() - i,
    {
        if crate::chars::is_space_char(v[i]) {
            i += 1;
        } else {
            let l = token_first_match(&v, i);
            let tok_text = chars_string_range(&v, i, i + l);
            let ghost prev = out@;
            out.push(Token { value: tok_text });
            proof {
                assert(token_values(out@) =~= token_values(prev).push(
                    v@.subrange(i as int, i + l),
                ));
                assert(token_values(out@) + tokenize_from(v@, (i + l) as int)
                    =~= token_values(prev) + tokenize_from(v@, i as int));
            }
            i += l;
        }
    }
    proof {
        assert(token_values(out@) + tokenize_from(v@, i as int) =~= token_values(out@));
    }
    out
}

} // verus!
