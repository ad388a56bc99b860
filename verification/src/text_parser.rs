//! The parsed text: preprocessing, tokenization, per-token action
//! application in fixed category priority order, the filtering of emptied
//! tokens, and the joined output value with its whitespace normalization.

use vstd::prelude::*;
use crate::chars::space_char;
use crate::scan::{space_run, lemma_space_run, space_run_end};
use crate::strutil::{str_chars, chars_string_range, push_char, str_eq};
use crate::token::{
    Token, Action, InvalidAction, action_invalid, action_fires, token_after_action,
};
use crate::tokenizer::{tweet_tokenize, tokenize_text, token_values};
use crate::patterns::is_hashtag_text;
use crate::text_prep::{preprocess_text, preprocess_spec, opt_str_view};

verus! {

// ---------------------------------------------------------------------------
// Joining and whitespace normalization
// ---------------------------------------------------------------------------

/// The texts joined with the separator between them.
pub open spec fn join_with(ts: Seq<Seq<char>>, sep: Seq<char>) -> Seq<char>
    decreases ts.len(),
{
    if ts.len() == 0 {
        Seq::empty()
    } else if ts.len() == 1 {
        ts[0]
    } else {
        join_with(ts.drop_last(), sep) + sep + ts.last()
    }
}

/// The text with every whitespace run written as a single space, from
/// position `i` on.
pub open spec fn collapse_ws_from(s: Seq<char>, i: int) -> Seq<char>
    decreases s.len() - i,
    when 0 <= i <= s.len()
    via collapse_ws_from_dec
{
    if i >= s.len() {
        Seq::empty()
    } else if space_char(s[i]) {
        seq![' '] + collapse_ws_from(s, space_run(s, i))
    } else {
        seq![s[i]] + collapse_ws_from(s, i + 1)
    }
}

#[via_fn]
proof fn collapse_ws_from_dec(s: Seq<char>, i: int) {
    lemma_space_run(s, i);
}

pub open spec fn collapse_ws(s: Seq<char>) -> Seq<char> {
    collapse_ws_from(s, 0)
}

/// The index after the last non-whitespace character.
pub open spec fn trim_end_idx(s: Seq<char>) -> int
    decreases s.len(),
{
    if s.len() > 0 && space_char(s.last()) {
        trim_end_idx(s.drop_last())
    } else {
        s.len() as int
    }
}

pub proof fn lemma_trim_end_idx(s: Seq<char>)
    ensures
        0 <= trim_end_idx(s) <= s.len(),
        trim_end_idx(s) > 0 ==> !space_char(s[trim_end_idx(s) - 1]),
        forall|k: int| trim_end_idx(s) <= k < s.len() ==> space_char(s[k]),
    decreases s.len(),
{
    if s.len() > 0 && space_char(s.last()) {
        lemma_trim_end_idx(s.drop_last());
        assert forall|k: int| trim_end_idx(s) <= k < s.len() implies space_char(s[k]) by {
            if k < s.len() - 1 {
                assert(s.drop_last()[k] == s[k]);
            }
        }
    }
}

/// The text with leading and trailing whitespace removed.
pub open spec fn trim_spec(s: Seq<char>) -> Seq<char> {
    let b = space_run(s, 0);
    let e = trim_end_idx(s);
    if b >= e {
        Seq::empty()
    } else {
        s.subrange(b, e)
    }
}

/// Whitespace normalization of the joined value: whitespace runs collapsed
/// to one space, then trimmed at both ends.
pub open spec fn post_process_spec(s: Seq<char>) -> Seq<char> {
    trim_spec(collapse_ws(s))
}

#[verifier::loop_isolation(false)]
pub fn collapse_whitespace(text: &str) -> (r: String)
    ensures
        r@ == collapse_ws(text@),
{
    let v = str_chars(text);
    let mut out = String::new();
    let mut i: usize = 0;
    while i < v.len()
        invariant
            i <= v.len(),
            out@ + collapse_ws_from(text@, i as int) == collapse_ws(text@),
        decreases v.len() - i,
    {
        if crate::chars::is_space_char(v[i]) {
            push_char(&mut out, ' ');
            let w = space_run_end(&v, i);
            proof {
                lemma_space_run(v@, i as int);
                assert(out@ + collapse_ws_from(text@, w as int) =~= collapse_ws(text@));
            }
            i = w;
        } else {
            push_char(&mut out, v[i]);
            proof {
                assert(out@ + collapse_ws_from(text@, i as int + 1) =~= collapse_ws(text@));
            }
            i += 1;
        }
    }
    proof {
        assert(out@ + collapse_ws_from(text@, i as int) =~= out@);
    }
    out
}

#[verifier::loop_isolation(false)]
pub fn trim_whitespace(text: &str) -> (r: String)
    ensures
        r@ == trim_spec(text@),
{
    let v = str_chars(text);
    let b = space_run_end(&v, 0);
    proof {
        lemma_space_run(v@, 0);
    }
    let mut e = v.len();
    proof {
        assert(text@.subrange(0, text@.len() as int) =~= text@);
    }
    loop
        invariant
            e <= v.len(),
            trim_end_idx(text@) == trim_end_idx(text@.subrange(0, e as int)),
        decreases e,
    {
        if e > 0 && crate::chars::is_space_char(v[e - 1]) {
            proof {
                assert(text@.subrange(0, e as int).drop_last() =~= text@.subrange(0, e as int - 1));
            }
            e -= 1;
        } else {
            break;
        }
    }
    proof {
        assert(trim_end_idx(text@) == e as int);
    }
    if b >= e {
        String::new()
    } else {
        chars_string_range(&v, b, e)
    }
}

// ---------------------------------------------------------------------------
// Per-token processing
// ---------------------------------------------------------------------------

/// A token text after the one action that fires first, in the fixed category
/// priority order; a token no action fires on keeps its text.
pub open spec fn processed_value(
    s: Seq<char>,
    mentions: Option<Seq<char>>,
    hashtags: Option<Seq<char>>,
    urls: Option<Seq<char>>,
    digits: Option<Seq<char>>,
    emojis: Option<Seq<char>>,
    emoticons: Option<Seq<char>>,
    puncts: Option<Seq<char>>,
    emails: Option<Seq<char>>,
    html_tags: Option<Seq<char>>,
) -> Seq<char> {
    if action_fires(mentions, "is_mention"@, s) {
        token_after_action(mentions, "is_mention"@, s)
    } else if action_fires(hashtags, "is_hashtag"@, s) {
        token_after_action(hashtags, "is_hashtag"@, s)
    } else if action_fires(urls, "is_url"@, s) {
        token_after_action(urls, "is_url"@, s)
    } else if action_fires(digits, "is_digit"@, s) {
        token_after_action(digits, "is_digit"@, s)
    } else if action_fires(emojis, "is_emoji"@, s) {
        token_after_action(emojis, "is_emoji"@, s)
    } else if action_fires(emoticons, "is_emoticon"@, s) {
        token_after_action(emoticons, "is_emoticon"@, s)
    } else if action_fires(puncts, "is_punct"@, s) {
        token_after_action(puncts, "is_punct"@, s)
    } else if action_fires(emails, "is_email"@, s) {
        token_after_action(emails, "is_email"@, s)
    } else if action_fires(html_tags, "is_html_tag"@, s) {
        token_after_action(html_tags, "is_html_tag"@, s)
    } else {
        s
    }
}

/// Some requested action is a configuration error.
pub open spec fn any_action_invalid(
    mentions: Option<Seq<char>>,
    hashtags: Option<Seq<char>>,
    urls: Option<Seq<char>>,
    digits: Option<Seq<char>>,
    emojis: Option<Seq<char>>,
    emoticons: Option<Seq<char>>,
    puncts: Option<Seq<char>>,
    emails: Option<Seq<char>>,
    html_tags: Option<Seq<char>>,
) -> bool {
    ||| action_invalid(mentions, "is_mention"@)
    ||| action_invalid(hashtags, "is_hashtag"@)
    ||| action_invalid(urls, "is_url"@)
    ||| action_invalid(digits, "is_digit"@)
    ||| action_invalid(emojis, "is_emoji"@)
    ||| action_invalid(emoticons, "is_emoticon"@)
    ||| action_invalid(puncts, "is_punct"@)
    ||| action_invalid(emails, "is_email"@)
    ||| action_invalid(html_tags, "is_html_tag"@)
}

/// All token texts after processing, before the empties are dropped.
pub open spec fn processed_values(
    ts: Seq<Seq<char>>,
    mentions: Option<Seq<char>>,
    hashtags: Option<Seq<char>>,
    urls: Option<Seq<char>>,
    digits: Option<Seq<char>>,
    emojis: Option<Seq<char>>,
    emoticons: Option<Seq<char>>,
    puncts: Option<Seq<char>>,
    emails: Option<Seq<char>>,
    html_tags: Option<Seq<char>>,
) -> Seq<Seq<char>> {
    Seq::new(
        ts.len(),
        |k: int|
            processed_value(
                ts[k],
                mentions,
                hashtags,
                urls,
                digits,
                emojis,
                emoticons,
                puncts,
                emails,
                html_tags,
            ),
    )
}

/// The nonempty texts, in order.
pub open spec fn nonempty_values(ts: Seq<Seq<char>>) -> Seq<Seq<char>>
    decreases ts.len(),
{
    if ts.len() == 0 {
        ts
    } else {
        nonempty_values(ts.drop_last()) + (if ts.last().len() > 0 {
            seq![ts.last()]
        } else {
            Seq::<Seq<char>>::empty()
        })
    }
}

/// The token texts after one processing pass: each rewritten by the first
/// firing action, the emptied ones dropped.
pub open spec fn process_result(
    ts: Seq<Seq<char>>,
    mentions: Option<Seq<char>>,
    hashtags: Option<Seq<char>>,
    urls: Option<Seq<char>>,
    digits: Option<Seq<char>>,
    emojis: Option<Seq<char>>,
    emoticons: Option<Seq<char>>,
    puncts: Option<Seq<char>>,
    emails: Option<Seq<char>>,
    html_tags: Option<Seq<char>>,
) -> Seq<Seq<char>> {
    nonempty_values(
        processed_values(
            ts,
            mentions,
            hashtags,
            urls,
            digits,
            emojis,
            emoticons,
            puncts,
            emails,
            html_tags,
        ),
    )
}

/// Builds the action for one category condition and applies it to the token.
fn apply_named(name: Option<&str>, condition: &str, token: &mut Token) -> (r: Result<
    bool,
    InvalidAction,
>)
    ensures
        match r {
            Err(_) => action_invalid(opt_str_view(name), condition@) && *final(token) == *old(
                token,
            ),
            Ok(b) => {
                &&& !action_invalid(opt_str_view(name), condition@)
                &&& b == action_fires(opt_str_view(name), condition@, old(token).value@)
                &&& final(token).value@ == token_after_action(
                    opt_str_view(name),
                    condition@,
                    old(token).value@,
                )
            },
        },
{
    let owned_name = match name {
        Some(x) => Some(x.to_owned()),
        None => None,
    };
    let act = Action { action_name: owned_name, action_condition: condition.to_owned() };
    token.do_action(&act)
}

/// Validates one requested action without touching any token.
fn validate_named(name: Option<&str>, condition: &str) -> (r: Result<(), InvalidAction>)
    ensures
        r is Err <==> action_invalid(opt_str_view(name), condition@),
{
    let owned_name = match name {
        Some(x) => Some(x.to_owned()),
        None => None,
    };
    let act = Action { action_name: owned_name, action_condition: condition.to_owned() };
    match act.is_action_valid() {
        Ok(_) => Ok(()),
        Err(e) => Err(e),
    }
}

// ---------------------------------------------------------------------------
// ParsedText
// ---------------------------------------------------------------------------

/// The aggregate result of processing one input string: the ordered token
/// sequence, the join separator, and the memoized joined value.
#[derive(Debug)]
pub struct ParsedText {
    pub tokens: Vec<Token>,
    pub split: String,
    pub value: Option<String>,
}

impl ParsedText {
    /// The joined value the parsed text currently stands for: the memoized
    /// string when one is cached, else the tokens joined with the separator.
    pub open spec fn current_value(&self) -> Seq<char> {
        match self.value {
            Some(v) => v@,
            None => join_with(token_values(self.tokens@), self.split@),
        }
    }

    pub fn len(&self) -> (r: usize)
        ensures
            r == self.tokens@.len(),
    {
        self.tokens.len()
    }

    /// One processing pass: every requested action is validated up front (a
    /// configuration error stops the pass before any token changes); then
    /// each token is rewritten by the first firing action in priority order,
    /// and the emptied tokens are dropped.  A memoized joined value is
    /// invalidated, since the tokens may have changed.
    #[verifier::loop_isolation(false)]
    pub fn process(
        &mut self,
        mentions_action: Option<&str>,
        hashtags_action: Option<&str>,
        urls_action: Option<&str>,
        digits_action: Option<&str>,
        emojis_action: Option<&str>,
        emoticons_actions: Option<&str>,
        puncts_action: Option<&str>,
        emails_action: Option<&str>,
        html_tags_action: Option<&str>,
    ) -> (r: Result<(), InvalidAction>)
        ensures
            match r {
                Err(_) => {
                    &&& any_action_invalid(
                        opt_str_view(mentions_action),
                        opt_str_view(hashtags_action),
                        opt_str_view(urls_action),
                        opt_str_view(digits_action),
                        opt_str_view(emojis_action),
                        opt_str_view(emoticons_actions),
                        opt_str_view(puncts_action),
                        opt_str_view(emails_action),
                        opt_str_view(html_tags_action),
                    )
                    &&& *final(self) == *old(self)
                },
                Ok(_) => {
                    &&& !any_action_invalid(
                        opt_str_view(mentions_action),
                        opt_str_view(hashtags_action),
                        opt_str_view(urls_action),
                        opt_str_view(digits_action),
                        opt_str_view(emojis_action),
                        opt_str_view(emoticons_actions),
                        opt_str_view(puncts_action),
                        opt_str_view(emails_action),
                        opt_str_view(html_tags_action),
                    )
                    &&& token_values(final(self).tokens@) == process_result(
                        token_values(old(self).tokens@),
                        opt_str_view(mentions_action),
                        opt_str_view(hashtags_action),
                        opt_str_view(urls_action),
                        opt_str_view(digits_action),
                        opt_str_view(emojis_action),
                        opt_str_view(emoticons_actions),
                        opt_str_view(puncts_action),
                        opt_str_view(emails_action),
                        opt_str_view(html_tags_action),
                    )
                    &&& final(self).split == old(self).split
                    &&& final(self).value is None
                },
            },
    {
        let ghost m = opt_str_view(mentions_action);
        let ghost h = opt_str_view(hashtags_action);
        let ghost u = opt_str_view(urls_action);
        let ghost d = opt_str_view(digits_action);
        let ghost e = opt_str_view(emojis_action);
        let ghost eo = opt_str_view(emoticons_actions);
        let ghost p = opt_str_view(puncts_action);
        let ghost em = opt_str_view(emails_action);
        let ghost ht = opt_str_view(html_tags_action);
        match validate_named(mentions_action, "is_mention") {
            Ok(_) => (),
            Err(err) => {
                return Err(err);
            },
        }
        match validate_named(hashtags_action, "is_hashtag") {
            Ok(_) => (),
            Err(err) => {
                return Err(err);
            },
        }
        match validate_named(urls_action, "is_url") {
            Ok(_) => (),
            Err(err) => {
                return Err(err);
            },
        }
        match validate_named(digits_action, "is_digit") {
            Ok(_) => (),
            Err(err) => {
                return Err(err);
            },
        }
        match validate_named(emojis_action, "is_emoji") {
            Ok(_) => (),
            Err(err) => {
                return Err(err);
            },
        }
        match validate_named(emoticons_actions, "is_emoticon") {
            Ok(_) => (),
            Err(err) => {
                return Err(err);
            },
        }
        match validate_named(puncts_action, "is_punct") {
            Ok(_) => (),
            Err(err) => {
                return Err(err);
            },
        }
        match validate_named(emails_action, "is_email") {
            Ok(_) => (),
            Err(err) => {
                return Err(err);
            },
        }
        match validate_named(html_tags_action, "is_html_tag") {
            Ok(_) => (),
            Err(err) => {
                return Err(err);
            },
        }
        let ghost orig = token_values(old(self).tokens@);
        let n = self.tokens.len();
        let mut idx: usize = 0;
        while idx < n
            invariant
                idx <= n,
                n == self.tokens@.len(),
                self.split == old(self).split,
                self.value == old(self).value,
                forall|k: int| idx <= k < n ==> self.tokens@[k] == old(self).tokens@[k],
                forall|k: int| 0 <= k < idx ==> self.tokens@[k].value@ == processed_value(
                    orig[k],
                    m,
                    h,
                    u,
                    d,
                    e,
                    eo,
                    p,
                    em,
                    ht,
                ),
            decreases n - idx,
        {
            let mut tok = Token { value: self.tokens[idx].value.clone() };
            let ghost s0 = tok.value@;
            proof {
                assert(s0 == orig[idx as int]);
            }
            let mut fired = match apply_named(mentions_action, "is_mention", &mut tok) {
                Ok(b) => b,
                Err(err) => {
                    proof {
                        assert(false);
                    }
                    return Err(err);
                },
            };
            if !fired {
                fired = match apply_named(hashtags_action, "is_hashtag", &mut tok) {
                    Ok(b) => b,
                    Err(err) => {
                        proof {
                            assert(false);
                        }
                        return Err(err);
                    },
                };
            }
            if !fired {
                fired = match apply_named(urls_action, "is_url", &mut tok) {
                    Ok(b) => b,
                    Err(err) => {
                        proof {
                            assert(false);
                        }
                        return Err(err);
                    },
                };
            }
            if !fired {
                fired = match apply_named(digits_action, "is_digit", &mut tok) {
                    Ok(b) => b,
                    Err(err) => {
                        proof {
                            assert(false);
                        }
                        return Err(err);
                    },
                };
            }
            if !fired {
                fired = match apply_named(emojis_action, "is_emoji", &mut tok) {
                    Ok(b) => b,
                    Err(err) => {
                        proof {
                            assert(false);
                        }
                        return Err(err);
                    },
                };
            }
            if !fired {
                fired = match apply_named(emoticons_actions, "is_emoticon", &mut tok) {
                    Ok(b) => b,
                    Err(err) => {
                        proof {
                            assert(false);
                        }
                        return Err(err);
                    },
                };
            }
            if !fired {
                fired = match apply_named(puncts_action, "is_punct", &mut tok) {
                    Ok(b) => b,
                    Err(err) => {
                        proof {
                            assert(false);
                        }
                        return Err(err);
                    },
                };
            }
            if !fired {
                fired = match apply_named(emails_action, "is_email", &mut tok) {
                    Ok(b) => b,
                    Err(err) => {
                        proof {
                            assert(false);
                        }
                        return Err(err);
                    },
                };
            }
            if !fired {
                fired = match apply_named(html_tags_action, "is_html_tag", &mut tok) {
                    Ok(b) => b,
                    Err(err) => {
                        proof {
                            assert(false);
                        }
                        return Err(err);
                    },
                };
            }
            proof {
                assert(tok.value@ == processed_value(s0, m, h, u, d, e, eo, p, em, ht));
            }
            self.tokens.set(idx, tok);
            idx += 1;
        }
        // Drop the emptied tokens.
        let mut kept: Vec<Token> = Vec::new();
        let ghost mapped = token_values(self.tokens@);
        let mut j: usize = 0;
        while j < n
            invariant
                j <= n,
                n == self.tokens@.len(),
                mapped == token_values(self.tokens@),
                token_values(kept@) == nonempty_values(mapped.subrange(0, j as int)),
            decreases n - j,
        {
            let ghost pre = mapped.subrange(0, j as int);
            let ghost post = mapped.subrange(0, j as int + 1);
            proof {
                assert(post.drop_last() =~= pre);
            }
            if !self.tokens[j].value.as_str().is_empty() {
                let ghost kept_pre = kept@;
                kept.push(Token { value: self.tokens[j].value.clone() });
                proof {
                    assert(token_values(kept@) =~= token_values(kept_pre).push(mapped[j as int]));
                    assert(token_values(kept@) =~= nonempty_values(post));
                }
            } else {
                proof {
                    assert(token_values(kept@) =~= nonempty_values(post));
                }
            }
            j += 1;
        }
        proof {
            assert(mapped.subrange(0, n as int) =~= mapped);
        }
        self.tokens = kept;
        self.value = None;
        proof {
            assert(mapped =~= processed_values(orig, m, h, u, d, e, eo, p, em, ht));
        }
        Ok(())
    }

    /// Normalizes the joined value: whitespace runs become one space and the
    /// ends are trimmed.
    pub fn post_process(&mut self)
        ensures
            final(self).tokens == old(self).tokens,
            final(self).split == old(self).split,
            final(self).value matches Some(v) && v@ == post_process_spec(
                old(self).current_value(),
            ),
    {
        let text = self.value();
        let collapsed = collapse_whitespace(text.as_str());
        let trimmed = trim_whitespace(collapsed.as_str());
        self.value = Some(trimmed);
    }

    /// The joined value: the memoized string when one is cached, else the
    /// tokens joined with the separator, which is then cached.
    pub fn value(&mut self) -> (r: String)
        ensures
            r@ == old(self).current_value(),
            final(self).tokens == old(self).tokens,
            final(self).split == old(self).split,
            final(self).value matches Some(v) && v@ == old(self).current_value(),
    {
        match &self.value {
            Some(v) => v.clone(),
            None => {
                let joined = join_tokens(&self.tokens, self.split.as_str());
                self.value = Some(joined.clone());
                joined
            },
        }
    }
}

/// Joins the token texts with the separator.
#[verifier::loop_isolation(false)]
pub fn join_tokens(tokens: &Vec<Token>, sep: &str) -> (r: String)
    ensures
        r@ == join_with(token_values(tokens@), sep@),
{
    let ghost ts = token_values(tokens@);
    let sep_chars = str_chars(sep);
    let mut out = String::new();
    let mut i: usize = 0;
    while i < tokens.len()
        invariant
            i <= tokens.len(),
            out@ == join_with(ts.subrange(0, i as int), sep@),
        decreases tokens.len() - i,
    {
        let ghost pre = ts.subrange(0, i as int);
        let ghost post = ts.subrange(0, i as int + 1);
        proof {
            assert(post.drop_last() =~= pre);
        }
        if i > 0 {
            let mut k: usize = 0;
            let ghost out0 = out@;
            while k < sep_chars.len()
                invariant
                    k <= sep_chars.len(),
                    out@ == out0 + sep@.subrange(0, k as int),
                decreases sep_chars.len() - k,
            {
                push_char(&mut out, sep_chars[k]);
                proof {
                    assert(out@ =~= out0 + sep@.subrange(0, k as int + 1));
                }
                k += 1;
            }
            proof {
                assert(sep@.subrange(0, sep@.len() as int) =~= sep@);
                assert(out@ == out0 + sep@);
            }
        }
        let tok_chars = str_chars(tokens[i].value.as_str());
        let mut k: usize = 0;
        let ghost out1 = out@;
        while k < tok_chars.len()
            invariant
                k <= tok_chars.len(),
                tok_chars@ == ts[i as int],
                out@ == out1 + ts[i as int].subrange(0, k as int),
            decreases tok_chars.len() - k,
        {
            push_char(&mut out, tok_chars[k]);
            proof {
                assert(out@ =~= out1 + ts[i as int].subrange(0, k as int + 1));
            }
            k += 1;
        }
        proof {
            assert(ts[i as int].subrange(0, ts[i as int].len() as int) =~= ts[i as int]);
            assert(out@ == out1 + ts[i as int]);
            if i == 0 {
                assert(out@ =~= join_with(post, sep@));
            } else {
                assert(out@ =~= join_with(post, sep@));
            }
        }
        i += 1;
    }
    proof {
        assert(ts.subrange(0, ts.len() as int) =~= ts);
    }
    out
}

} // verus!

verus! {

// ---------------------------------------------------------------------------
// Category-filtered views
// ---------------------------------------------------------------------------

/// The sequence views of a vector of strings.
pub open spec fn string_values(ss: Seq<String>) -> Seq<Seq<char>> {
    Seq::new(ss.len(), |k: int| ss[k]@)
}

/// The token texts of one category, in order.
pub open spec fn category_view(ts: Seq<Seq<char>>, cat: crate::token::Category) -> Seq<Seq<char>>
    decreases ts.len(),
{
    if ts.len() == 0 {
        ts
    } else {
        category_view(ts.drop_last(), cat) + (if crate::token::matches_category(cat, ts.last()) {
            seq![ts.last()]
        } else {
            Seq::<Seq<char>>::empty()
        })
    }
}

/// The hashtag texts, each with its leading `#` removed, in order.
pub open spec fn hashtags_view(ts: Seq<Seq<char>>) -> Seq<Seq<char>>
    decreases ts.len(),
{
    if ts.len() == 0 {
        ts
    } else {
        hashtags_view(ts.drop_last()) + (if is_hashtag_text(ts.last()) {
            seq![ts.last().subrange(1, ts.last().len() as int)]
        } else {
            Seq::<Seq<char>>::empty()
        })
    }
}

/// Collects the texts of the tokens of one category.
#[verifier::loop_isolation(false)]
fn collect_category(tokens: &Vec<Token>, cat: crate::token::Category) -> (r: Vec<String>)
    ensures
        string_values(r@) == category_view(token_values(tokens@), cat),
{
    let ghost ts = token_values(tokens@);
    let mut out: Vec<String> = Vec::new();
    let mut i: usize = 0;
    while i < tokens.len()
        invariant
            i <= tokens.len(),
            string_values(out@) == category_view(ts.subrange(0, i as int), cat),
        decreases tokens.len() - i,
    {
        let ghost pre = ts.subrange(0, i as int);
        let ghost post = ts.subrange(0, i as int + 1);
        proof {
            assert(post.drop_last() =~= pre);
        }
        if crate::token::category_matches(cat, tokens[i].value.as_str()) {
            out.push(tokens[i].value.clone());
        }
        proof {
            assert(string_values(out@) =~= category_view(post, cat));
        }
        i += 1;
    }
    proof {
        assert(ts.subrange(0, ts.len() as int) =~= ts);
    }
    out
}

impl ParsedText {
    /// The hashtags among the tokens, with the leading `#` stripped.
    #[verifier::loop_isolation(false)]
    pub fn hashtags(&self) -> (r: Vec<String>)
        ensures
            string_values(r@) == hashtags_view(token_values(self.tokens@)),
    {
        let ghost ts = token_values(self.tokens@);
        let mut out: Vec<String> = Vec::new();
        let mut i: usize = 0;
        while i < self.tokens.len()
            invariant
                i <= self.tokens.len(),
                string_values(out@) == hashtags_view(ts.subrange(0, i as int)),
            decreases self.tokens.len() - i,
        {
            let ghost pre = ts.subrange(0, i as int);
            let ghost post = ts.subrange(0, i as int + 1);
            proof {
                assert(post.drop_last() =~= pre);
            }
            let v = str_chars(self.tokens[i].value.as_str());
            if crate::patterns::hashtag_match(&v) {
                let stripped = chars_string_range(&v, 1, v.len());
                out.push(stripped);
            }
            proof {
                assert(string_values(out@) =~= hashtags_view(post));
            }
            i += 1;
        }
        proof {
            assert(ts.subrange(0, ts.len() as int) =~= ts);
        }
        out
    }

    pub fn mentions(&self) -> (r: Vec<String>)
        ensures
            string_values(r@) == category_view(
                token_values(self.tokens@),
                crate::token::Category::Mention,
            ),
    {
        collect_category(&self.tokens, crate::token::Category::Mention)
    }

    pub fn emojis(&self) -> (r: Vec<String>)
        ensures
            string_values(r@) == category_view(
                token_values(self.tokens@),
                crate::token::Category::Emoji,
            ),
    {
        collect_category(&self.tokens, crate::token::Category::Emoji)
    }

    pub fn emoticons(&self) -> (r: Vec<String>)
        ensures
            string_values(r@) == category_view(
                token_values(self.tokens@),
                crate::token::Category::Emoticon,
            ),
    {
        collect_category(&self.tokens, crate::token::Category::Emoticon)
    }

    pub fn digits(&self) -> (r: Vec<String>)
        ensures
            string_values(r@) == category_view(
                token_values(self.tokens@),
                crate::token::Category::Digit,
            ),
    {
        collect_category(&self.tokens, crate::token::Category::Digit)
    }

    pub fn emails(&self) -> (r: Vec<String>)
        ensures
            string_values(r@) == category_view(
                token_values(self.tokens@),
                crate::token::Category::Email,
            ),
    {
        collect_category(&self.tokens, crate::token::Category::Email)
    }

    pub fn urls(&self) -> (r: Vec<String>)
        ensures
            string_values(r@) == category_view(
                token_values(self.tokens@),
                crate::token::Category::Url,
            ),
    {
        collect_category(&self.tokens, crate::token::Category::Url)
    }
}

// ---------------------------------------------------------------------------
// Parsing
// ---------------------------------------------------------------------------

/// Whether some text of `fs` equals `t`.
pub open spec fn contains_text(fs: Seq<Seq<char>>, t: Seq<char>) -> bool {
    exists|j: int| 0 <= j < fs.len() && fs[j] == t
}

/// The texts of `ts` whose exact text is not among the filters, in order.
pub open spec fn filter_out(ts: Seq<Seq<char>>, fs: Seq<Seq<char>>) -> Seq<Seq<char>>
    decreases ts.len(),
{
    if ts.len() == 0 {
        ts
    } else {
        filter_out(ts.drop_last(), fs) + (if contains_text(fs, ts.last()) {
            Seq::<Seq<char>>::empty()
        } else {
            seq![ts.last()]
        })
    }
}

/// The filter set a caller handed in, as text sequences.
pub open spec fn opt_filters_view(filters: Option<&Vec<String>>) -> Seq<Seq<char>> {
    match filters {
        Some(fs) => string_values(fs@),
        None => Seq::empty(),
    }
}

#[verifier::loop_isolation(false)]
fn filters_contain(fs: &Vec<String>, s: &str) -> (r: bool)
    ensures
        r == contains_text(string_values(fs@), s@),
{
    let mut i: usize = 0;
    while i < fs.len()
        invariant
            i <= fs.len(),
            forall|j: int| 0 <= j < i ==> string_values(fs@)[j] != s@,
        decreases fs.len() - i,
    {
        if str_eq(fs[i].as_str(), s) {
            proof {
                assert(string_values(fs@)[i as int] == s@);
            }
            return true;
        }
        i += 1;
    }
    false
}

/// The final joined value of a parse of cleaned text: tokenize, filter,
/// process, drop empties, join with a space, and normalize whitespace.
pub open spec fn parse_value_spec(
    clean: Seq<char>,
    fs: Seq<Seq<char>>,
    mentions: Option<Seq<char>>,
    hashtags: Option<Seq<char>>,
    urls: Option<Seq<char>>,
    digits: Option<Seq<char>>,
    emojis: Option<Seq<char>>,
    emoticons: Option<Seq<char>>,
    puncts: Option<Seq<char>>,
    emails: Option<Seq<char>>,
    html_tags: Option<Seq<char>>,
) -> Seq<char> {
    post_process_spec(
        join_with(
            process_result(
                filter_out(tokenize_text(clean), fs),
                mentions,
                hashtags,
                urls,
                digits,
                emojis,
                emoticons,
                puncts,
                emails,
                html_tags,
            ),
            " "@,
        ),
    )
}

/// Parses an already cleaned text: tokenizes it, drops the filtered tokens,
/// runs one processing pass and normalizes the joined value.
#[verifier::loop_isolation(false)]
fn _parse_text(
    clean_text: String,
    filters: Option<&Vec<String>>,
    emojis: Option<&str>,
    emoticons_actions: Option<&str>,
    mentions: Option<&str>,
    hashtags: Option<&str>,
    urls: Option<&str>,
    digits: Option<&str>,
    puncts: Option<&str>,
    emails: Option<&str>,
    html_tags: Option<&str>,
) -> (r: Result<ParsedText, InvalidAction>)
    ensures
        match r {
            Err(_) => any_action_invalid(
                opt_str_view(mentions),
                opt_str_view(hashtags),
                opt_str_view(urls),
                opt_str_view(digits),
                opt_str_view(emojis),
                opt_str_view(emoticons_actions),
                opt_str_view(puncts),
                opt_str_view(emails),
                opt_str_view(html_tags),
            ),
            Ok(p) => {
                &&& !any_action_invalid(
                    opt_str_view(mentions),
                    opt_str_view(hashtags),
                    opt_str_view(urls),
                    opt_str_view(digits),
                    opt_str_view(emojis),
                    opt_str_view(emoticons_actions),
                    opt_str_view(puncts),
                    opt_str_view(emails),
                    opt_str_view(html_tags),
                )
                &&& token_values(p.tokens@) == process_result(
                    filter_out(tokenize_text(clean_text@), opt_filters_view(filters)),
                    opt_str_view(mentions),
                    opt_str_view(hashtags),
                    opt_str_view(urls),
                    opt_str_view(digits),
                    opt_str_view(emojis),
                    opt_str_view(emoticons_actions),
                    opt_str_view(puncts),
                    opt_str_view(emails),
                    opt_str_view(html_tags),
                )
                &&& p.split@ == " "@
                &&& p.value matches Some(v) && v@ == parse_value_spec(
                    clean_text@,
                    opt_filters_view(filters),
                    opt_str_view(mentions),
                    opt_str_view(hashtags),
                    opt_str_view(urls),
                    opt_str_view(digits),
                    opt_str_view(emojis),
                    opt_str_view(emoticons_actions),
                    opt_str_view(puncts),
                    opt_str_view(emails),
                    opt_str_view(html_tags),
                )
            },
        },
{
    let ghost fview = opt_filters_view(filters);
    let toks = tweet_tokenize(clean_text);
    let ghost all = token_values(toks@);
    let mut kept: Vec<Token> = Vec::new();
    let mut i: usize = 0;
    while i < toks.len()
        invariant
            i <= toks.len(),
            token_values(kept@) == filter_out(all.subrange(0, i as int), fview),
        decreases toks.len() - i,
    {
        let ghost pre = all.subrange(0, i as int);
        let ghost post = all.subrange(0, i as int + 1);
        proof {
            assert(post.drop_last() =~= pre);
        }
        let dropped = match filters {
            Some(fs) => filters_contain(fs, toks[i].value.as_str()),
            None => false,
        };
        if !dropped {
            kept.push(Token { value: toks[i].value.clone() });
        }
        proof {
            assert(token_values(kept@) =~= filter_out(post, fview));
        }
        i += 1;
    }
    proof {
        assert(all.subrange(0, all.len() as int) =~= all);
    }
    let mut parsed = ParsedText { tokens: kept, split: " ".to_owned(), value: None };
    match parsed.process(
        mentions,
        hashtags,
        urls,
        digits,
        emojis,
        emoticons_actions,
        puncts,
        emails,
        html_tags,
    ) {
        Ok(_) => (),
        Err(e) => {
            return Err(e);
        },
    }
    parsed.post_process();
    Ok(parsed)
}

/// Preprocesses and parses the text: cleans it under the given options,
/// tokenizes it, drops the filtered tokens, applies the requested
/// per-category actions in priority order, and normalizes the joined value.
/// A requested operation outside its category's legal set is reported as a
/// configuration error and yields no parse.
pub fn parse_text(
    text: String,
    encoding: Option<&str>,
    remove_unencodable_char: Option<bool>,
    to_lower: Option<bool>,
    strip_accents: Option<bool>,
    reduce_len: Option<bool>,
    filters: Option<&Vec<String>>,
    emojis: Option<&str>,
    emoticons: Option<&str>,
    mentions: Option<&str>,
    hashtags: Option<&str>,
    urls: Option<&str>,
    digits: Option<&str>,
    puncts: Option<&str>,
    emails: Option<&str>,
    html_tags: Option<&str>,
) -> (r: Result<ParsedText, InvalidAction>)
    ensures
        ({
            let clean = preprocess_spec(
                text@,
                opt_str_view(encoding),
                remove_unencodable_char == Some(true),
                to_lower != Some(false),
                strip_accents == Some(true),
                reduce_len == Some(true),
            );
            match r {
                Err(_) => any_action_invalid(
                    opt_str_view(mentions),
                    opt_str_view(hashtags),
                    opt_str_view(urls),
                    opt_str_view(digits),
                    opt_str_view(emojis),
                    opt_str_view(emoticons),
                    opt_str_view(puncts),
                    opt_str_view(emails),
                    opt_str_view(html_tags),
                ),
                Ok(p) => {
                    &&& !any_action_invalid(
                        opt_str_view(mentions),
                        opt_str_view(hashtags),
                        opt_str_view(urls),
                        opt_str_view(digits),
                        opt_str_view(emojis),
                        opt_str_view(emoticons),
                        opt_str_view(puncts),
                        opt_str_view(emails),
                        opt_str_view(html_tags),
                    )
                    &&& token_values(p.tokens@) == process_result(
                        filter_out(tokenize_text(clean), opt_filters_view(filters)),
                        opt_str_view(mentions),
                        opt_str_view(hashtags),
                        opt_str_view(urls),
                        opt_str_view(digits),
                        opt_str_view(emojis),
                        opt_str_view(emoticons),
                        opt_str_view(puncts),
                        opt_str_view(emails),
                        opt_str_view(html_tags),
                    )
                    &&& p.split@ == " "@
                    &&& p.value matches Some(v) && v@ == parse_value_spec(
                        clean,
                        opt_filters_view(filters),
                        opt_str_view(mentions),
                        opt_str_view(hashtags),
                        opt_str_view(urls),
                        opt_str_view(digits),
                        opt_str_view(emojis),
                        opt_str_view(emoticons),
                        opt_str_view(puncts),
                        opt_str_view(emails),
                        opt_str_view(html_tags),
                    )
                },
            }
        }),
{
    let clean_text = preprocess_text(
        text,
        encoding,
        remove_unencodable_char,
        to_lower,
        strip_accents,
        reduce_len,
    );
    _parse_text(
        clean_text,
        filters,
        emojis,
        emoticons,
        mentions,
        hashtags,
        urls,
        digits,
        puncts,
        emails,
        html_tags,
    )
}

} // verus!
