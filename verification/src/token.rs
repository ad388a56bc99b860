//! Tokens, category classification, and the per-category rewrite actions.
//!
//! A token owns its text; its category membership is recomputed from the
//! current text on each query.  An action pairs a requested operation name
//! with a category condition; applying it to a token first validates the
//! pair, then tests membership, then rewrites the token's text.  A requested
//! operation outside the category's legal set is a configuration error,
//! reported through `InvalidAction`.

use vstd::prelude::*;
use crate::patterns::{
    is_hashtag_text, is_mention_text, is_url_text, is_digit_text, is_email_text,
    is_html_tag_text, is_weibo_hashtag_text, is_punct_text, hashtag_pat, numeric_hashtag,
    hashtag_match, mention_match, url_match, digit_match, email_match, html_tag_match,
    weibo_hashtag_match, punct_match, hashtag_pattern_match, numeric_hashtag_match,
};
use crate::emoticons::{is_emoticon_text, emoticon_match};
use crate::emoji::{
    is_emoji_text, demojized, emojized, _is_unicode_emoji, _is_emoji_alias, demojize_value,
    emojize_value,
};
use crate::strutil::{str_chars, str_eq};

verus! {

/// A classified span of text.  The text is the token's only state; every
/// category predicate is a pure function of the current text.
#[derive(PartialEq, Eq, Hash, Debug, Clone)]
pub struct Token {
    pub value: String,
}

/// A single-character punctuation test over a raw string.
pub fn _is_punct(value: &str) -> (r: bool)
    ensures
        r == is_punct_text(value@),
{
    let v = str_chars(value);
    punct_match(&v)
}

/// The fixed token categories, in their testing priority order.
#[derive(Clone, Copy, Debug)]
pub enum Category {
    Mention,
    Hashtag,
    Url,
    Digit,
    Emoji,
    Emoticon,
    Punctuation,
    Email,
    HtmlTag,
}

/// The category named by an action-condition string.
pub open spec fn condition_of(s: Seq<char>) -> Option<Category> {
    if s == "is_mention"@ {
        Some(Category::Mention)
    } else if s == "is_hashtag"@ {
        Some(Category::Hashtag)
    } else if s == "is_url"@ {
        Some(Category::Url)
    } else if s == "is_digit"@ {
        Some(Category::Digit)
    } else if s == "is_emoji"@ {
        Some(Category::Emoji)
    } else if s == "is_emoticon"@ {
        Some(Category::Emoticon)
    } else if s == "is_punct"@ {
        Some(Category::Punctuation)
    } else if s == "is_email"@ {
        Some(Category::Email)
    } else if s == "is_html_tag"@ {
        Some(Category::HtmlTag)
    } else {
        None
    }
}

pub fn category_of(s: &str) -> (r: Option<Category>)
    ensures
        r == condition_of(s@),
{
    if str_eq(s, "is_mention") {
        Some(Category::Mention)
    } else if str_eq(s, "is_hashtag") {
        Some(Category::Hashtag)
    } else if str_eq(s, "is_url") {
        Some(Category::Url)
    } else if str_eq(s, "is_digit") {
        Some(Category::Digit)
    } else if str_eq(s, "is_emoji") {
        Some(Category::Emoji)
    } else if str_eq(s, "is_emoticon") {
        Some(Category::Emoticon)
    } else if str_eq(s, "is_punct") {
        Some(Category::Punctuation)
    } else if str_eq(s, "is_email") {
        Some(Category::Email)
    } else if str_eq(s, "is_html_tag") {
        Some(Category::HtmlTag)
    } else {
        None
    }
}

/// Whether text `s` belongs to the category.
pub open spec fn matches_category(cat: Category, s: Seq<char>) -> bool {
    match cat {
        Category::Mention => is_mention_text(s),
        Category::Hashtag => is_hashtag_text(s),
        Category::Url => is_url_text(s),
        Category::Digit => is_digit_text(s),
        Category::Emoji => is_emoji_text(s),
        Category::Emoticon => is_emoticon_text(s),
        Category::Punctuation => is_punct_text(s),
        Category::Email => is_email_text(s),
        Category::HtmlTag => is_html_tag_text(s),
    }
}

pub fn category_matches(cat: Category, value: &str) -> (r: bool)
    ensures
        r == matches_category(cat, value@),
{
    match cat {
        Category::Mention => {
            let v = str_chars(value);
            mention_match(&v)
        },
        Category::Hashtag => {
            let v = str_chars(value);
            hashtag_match(&v)
        },
        Category::Url => {
            let v = str_chars(value);
            url_match(&v)
        },
        Category::Digit => {
            let v = str_chars(value);
            digit_match(&v)
        },
        Category::Emoji => _is_unicode_emoji(value) || _is_emoji_alias(value),
        Category::Emoticon => {
            let v = str_chars(value);
            emoticon_match(&v)
        },
        Category::Punctuation => _is_punct(value),
        Category::Email => {
            let v = str_chars(value);
            email_match(&v)
        },
        Category::HtmlTag => {
            let v = str_chars(value);
            html_tag_match(&v)
        },
    }
}

/// The replacement tag of a category, where it has one.
pub open spec fn tag_string(cat: Category) -> Option<Seq<char>> {
    match cat {
        Category::Mention => Some("<MENTION>"@),
        Category::Hashtag => Some("<HASHTAG>"@),
        Category::Url => Some("<URL>"@),
        Category::Digit => Some("<DIGIT>"@),
        Category::Emoji => Some("<EMOJI>"@),
        Category::Emoticon => Some("<EMOTICON>"@),
        Category::Punctuation => Some("<PUNCT>"@),
        Category::Email => Some("<EMAIL>"@),
        Category::HtmlTag => None,
    }
}

pub fn tag_string_of(cat: Category) -> (r: Option<String>)
    ensures
        tag_string(cat) == (match r {
            Some(t) => Some(t@),
            None => None::<Seq<char>>,
        }),
{
    match cat {
        Category::Mention => Some("<MENTION>".to_owned()),
        Category::Hashtag => Some("<HASHTAG>".to_owned()),
        Category::Url => Some("<URL>".to_owned()),
        Category::Digit => Some("<DIGIT>".to_owned()),
        Category::Emoji => Some("<EMOJI>".to_owned()),
        Category::Emoticon => Some("<EMOTICON>".to_owned()),
        Category::Punctuation => Some("<PUNCT>".to_owned()),
        Category::Email => Some("<EMAIL>".to_owned()),
        Category::HtmlTag => None,
    }
}

/// The legal operation names of a category: every category accepts `remove`;
/// all but HTML tags accept `tag`; emoji also accept `demojize` and
/// `emojize`.
pub open spec fn allowed_op(cat: Category, op: Seq<char>) -> bool {
    match cat {
        Category::Emoji => op == "remove"@ || op == "tag"@ || op == "demojize"@
            || op == "emojize"@,
        Category::HtmlTag => op == "remove"@,
        _ => op == "remove"@ || op == "tag"@,
    }
}

pub fn allowed_op_check(cat: Category, op: &str) -> (r: bool)
    ensures
        r == allowed_op(cat, op@),
{
    match cat {
        Category::Emoji => str_eq(op, "remove") || str_eq(op, "tag") || str_eq(op, "demojize")
            || str_eq(op, "emojize"),
        Category::HtmlTag => str_eq(op, "remove"),
        _ => str_eq(op, "remove") || str_eq(op, "tag"),
    }
}

/// What an operation makes of a token text of its category.
pub open spec fn action_applied(cat: Category, op: Seq<char>, s: Seq<char>) -> Seq<char> {
    if op == "remove"@ {
        Seq::empty()
    } else if op == "tag"@ {
        match tag_string(cat) {
            Some(t) => t,
            None => s,
        }
    } else if op == "demojize"@ {
        demojized(s)
    } else if op == "emojize"@ {
        emojized(s)
    } else {
        s
    }
}

/// A configuration error: the named operation is not legal for the stated
/// category.
pub open spec fn action_invalid(name: Option<Seq<char>>, cond: Seq<char>) -> bool {
    match (name, condition_of(cond)) {
        (Some(nm), Some(cat)) => nm.len() > 0 && !allowed_op(cat, nm),
        _ => false,
    }
}

/// A well-formed action request: a nonempty legal operation on a known
/// category.
pub open spec fn action_valid(name: Option<Seq<char>>, cond: Seq<char>) -> bool {
    match (name, condition_of(cond)) {
        (Some(nm), Some(cat)) => nm.len() > 0 && allowed_op(cat, nm),
        _ => false,
    }
}

/// Whether the action rewrites a token with text `s`: it must be
/// well-formed and the text must belong to the stated category.
pub open spec fn action_fires(name: Option<Seq<char>>, cond: Seq<char>, s: Seq<char>) -> bool {
    match (name, condition_of(cond)) {
        (Some(nm), Some(cat)) => nm.len() > 0 && allowed_op(cat, nm) && matches_category(cat, s),
        _ => false,
    }
}

/// The token text after the action: rewritten when the action fires,
/// untouched otherwise.
pub open spec fn token_after_action(name: Option<Seq<char>>, cond: Seq<char>, s: Seq<char>)
    -> Seq<char> {
    match (name, condition_of(cond)) {
        (Some(nm), Some(cat)) => if nm.len() > 0 && allowed_op(cat, nm) && matches_category(
            cat,
            s,
        ) {
            action_applied(cat, nm, s)
        } else {
            s
        },
        _ => s,
    }
}

/// The configuration error raised for an operation outside the category's
/// legal set.
#[derive(PartialEq, Eq, Debug, Clone)]
pub struct InvalidAction {
    pub action_name: String,
    pub action_condition: String,
}

/// A requested operation (or none) paired with a category condition.
pub struct Action {
    pub action_name: Option<String>,
    pub action_condition: String,
}

impl Action {
    /// The requested operation name, as a sequence view.
    pub open spec fn name_view(&self) -> Option<Seq<char>> {
        match self.action_name {
            Some(nm) => Some(nm@),
            None => None,
        }
    }

    /// Empties the token's text.
    pub fn remove(&self, token: &mut Token)
        ensures
            final(token).value@ == Seq::<char>::empty(),
    {
        token.set_value(String::new());
    }

    /// Replaces the token's text with the tag of the condition's category;
    /// a condition without a tag leaves the text unchanged.
    pub fn tag(&self, token: &mut Token)
        ensures
            final(token).value@ == (match condition_of(self.action_condition@) {
                Some(cat) => match tag_string(cat) {
                    Some(t) => t,
                    None => old(token).value@,
                },
                None => old(token).value@,
            }),
    {
        match category_of(self.action_condition.as_str()) {
            Some(cat) => {
                match tag_string_of(cat) {
                    Some(t) => token.set_value(t),
                    None => (),
                }
            },
            None => (),
        }
    }

    /// Rewrites the token's text to its `:shortcode:` form.
    pub fn demojize(&self, token: &mut Token)
        ensures
            final(token).value@ == demojized(old(token).value@),
    {
        let new_value = demojize_value(token.value.as_str());
        token.set_value(new_value);
    }

    /// Rewrites a `:shortcode:` token text to the emoji it names; any other
    /// text stays unchanged.
    pub fn emojize(&self, token: &mut Token)
        ensures
            final(token).value@ == emojized(old(token).value@),
    {
        let new_value = emojize_value(token.value.as_str());
        token.set_value(new_value);
    }

    /// Validates the request: `Ok(true)` for a nonempty legal operation on a
    /// known category, `Ok(false)` for a missing or empty operation or an
    /// unknown category, and a configuration error for an operation outside
    /// the category's legal set.
    pub fn is_action_valid(&self) -> (r: Result<bool, InvalidAction>)
        ensures
            match r {
                Err(e) => action_invalid(self.name_view(), self.action_condition@)
                    && Some(e.action_name@) == self.name_view()
                    && e.action_condition@ == self.action_condition@,
                Ok(b) => !action_invalid(self.name_view(), self.action_condition@)
                    && b == action_valid(self.name_view(), self.action_condition@),
            },
    {
        match &self.action_name {
            None => Ok(false),
            Some(nm) => {
                if nm.as_str().is_empty() {
                    return Ok(false);
                }
                match category_of(self.action_condition.as_str()) {
                    None => Ok(false),
                    Some(cat) => {
                        if allowed_op_check(cat, nm.as_str()) {
                            Ok(true)
                        } else {
                            Err(InvalidAction {
                                action_name: nm.clone(),
                                action_condition: self.action_condition.clone(),
                            })
                        }
                    },
                }
            },
        }
    }

    /// Applies the action to the token: validates the request, tests the
    /// token against the category, and rewrites the text when both hold.
    /// `Ok(true)` reports that the token was rewritten.
    pub fn apply(&self, token: &mut Token) -> (r: Result<bool, InvalidAction>)
        ensures
            match r {
                Err(_) => action_invalid(self.name_view(), self.action_condition@)
                    && *final(token) == *old(token),
                Ok(b) => {
                    &&& !action_invalid(self.name_view(), self.action_condition@)
                    &&& b == action_fires(
                        self.name_view(),
                        self.action_condition@,
                        old(token).value@,
                    )
                    &&& final(token).value@ == token_after_action(
                        self.name_view(),
                        self.action_condition@,
                        old(token).value@,
                    )
                },
            },
    {
        proof {
            reveal_strlit("remove");
            reveal_strlit("tag");
            reveal_strlit("demojize");
            reveal_strlit("emojize");
        }
        let valid = match self.is_action_valid() {
            Ok(b) => b,
            Err(e) => {
                return Err(e);
            },
        };
        if !valid {
            return Ok(false);
        }
        let cat = match category_of(self.action_condition.as_str()) {
            Some(cat) => cat,
            None => {
                proof {
                    assert(false);
                }
                return Ok(false);
            },
        };
        if !category_matches(cat, token.value.as_str()) {
            return Ok(false);
        }
        let nm = match &self.action_name {
            Some(nm) => nm,
            None => {
                proof {
                    assert(false);
                }
                return Ok(false);
            },
        };
        if str_eq(nm.as_str(), "remove") {
            self.remove(token);
        } else if str_eq(nm.as_str(), "tag") {
            self.tag(token);
        } else if str_eq(nm.as_str(), "demojize") {
            self.demojize(token);
        } else {
            assert(nm@ == "emojize"@);
            self.emojize(token);
        }
        Ok(true)
    }
}

impl Token {
    pub fn new(value: String) -> (t: Token)
        ensures
            t.value == value,
    {
        Token { value }
    }

    pub fn set_value(&mut self, new_value: String)
        ensures
            final(self).value == new_value,
    {
        self.value = new_value;
    }

    /// Whether the text is a known emoji grapheme or a known `:alias:`.
    pub fn is_emoji(&self) -> (r: bool)
        ensures
            r == is_emoji_text(self.value@),
    {
        _is_unicode_emoji(self.value.as_str()) || _is_emoji_alias(self.value.as_str())
    }

    /// Whether the text is exactly one character of a Unicode punctuation
    /// category.
    pub fn is_punct(&self) -> (r: bool)
        ensures
            r == is_punct_text(self.value@),
    {
        _is_punct(self.value.as_str())
    }

    /// Tests the text against one of the catalog's patterns, anchored to the
    /// whole text.
    pub fn check_flag(&self, pattern: &TokenPattern) -> (r: bool)
        ensures
            r == pattern_matches(*pattern, self.value@),
    {
        let v = str_chars(self.value.as_str());
        match pattern {
            TokenPattern::Url => url_match(&v),
            TokenPattern::Email => email_match(&v),
            TokenPattern::Mention => mention_match(&v),
            TokenPattern::Hashtag => hashtag_pattern_match(&v),
            TokenPattern::NotAHashtag => numeric_hashtag_match(&v),
            TokenPattern::HtmlTag => html_tag_match(&v),
            TokenPattern::Digit => digit_match(&v),
            TokenPattern::Emoticons => emoticon_match(&v),
            TokenPattern::WeiboHashtag => weibo_hashtag_match(&v),
        }
    }

    pub fn is_hashtag(&self) -> (r: bool)
        ensures
            r == is_hashtag_text(self.value@),
    {
        let v = str_chars(self.value.as_str());
        hashtag_match(&v)
    }

    pub fn is_url(&self) -> (r: bool)
        ensures
            r == is_url_text(self.value@),
    {
        let v = str_chars(self.value.as_str());
        url_match(&v)
    }

    pub fn is_mention(&self) -> (r: bool)
        ensures
            r == is_mention_text(self.value@),
    {
        let v = str_chars(self.value.as_str());
        mention_match(&v)
    }

    pub fn is_digit(&self) -> (r: bool)
        ensures
            r == is_digit_text(self.value@),
    {
        let v = str_chars(self.value.as_str());
        digit_match(&v)
    }

    pub fn is_email(&self) -> (r: bool)
        ensures
            r == is_email_text(self.value@),
    {
        let v = str_chars(self.value.as_str());
        email_match(&v)
    }

    pub fn is_html_tag(&self) -> (r: bool)
        ensures
            r == is_html_tag_text(self.value@),
    {
        let v = str_chars(self.value.as_str());
        html_tag_match(&v)
    }

    pub fn is_emoticon(&self) -> (r: bool)
        ensures
            r == is_emoticon_text(self.value@),
    {
        let v = str_chars(self.value.as_str());
        emoticon_match(&v)
    }

    pub fn do_action(&mut self, action: &Action) -> (r: Result<bool, InvalidAction>)
        ensures
            match r {
                Err(_) => action_invalid(action.name_view(), action.action_condition@)
                    && *final(self) == *old(self),
                Ok(b) => {
                    &&& !action_invalid(action.name_view(), action.action_condition@)
                    &&& b == action_fires(
                        action.name_view(),
                        action.action_condition@,
                        old(self).value@,
                    )
                    &&& final(self).value@ == token_after_action(
                        action.name_view(),
                        action.action_condition@,
                        old(self).value@,
                    )
                },
            },
    {
        action.apply(self)
    }
}

/// The anchored patterns a token can be held against through `check_flag`.
#[derive(Clone, Copy, Debug)]
pub enum TokenPattern {
    Url,
    Email,
    Mention,
    Hashtag,
    NotAHashtag,
    HtmlTag,
    Digit,
    Emoticons,
    WeiboHashtag,
}

pub open spec fn pattern_matches(p: TokenPattern, s: Seq<char>) -> bool {
    match p {
        TokenPattern::Url => is_url_text(s),
        TokenPattern::Email => is_email_text(s),
        TokenPattern::Mention => is_mention_text(s),
        TokenPattern::Hashtag => hashtag_pat(s),
        TokenPattern::NotAHashtag => numeric_hashtag(s),
        TokenPattern::HtmlTag => is_html_tag_text(s),
        TokenPattern::Digit => is_digit_text(s),
        TokenPattern::Emoticons => is_emoticon_text(s),
        TokenPattern::WeiboHashtag => is_weibo_hashtag_text(s),
    }
}

/// A token of a Weibo-style text, which differs from `Token` only in what
/// counts as a hashtag: `#` on both ends of the tag.
#[derive(PartialEq, Eq, Hash, Debug, Clone)]
pub struct WeiboToken {
    pub token: Token,
}

impl WeiboToken {
    pub fn new(value: String) -> (t: WeiboToken)
        ensures
            t.token.value == value,
    {
        WeiboToken { token: Token { value } }
    }

    pub fn set_value(&mut self, new_value: String)
        ensures
            final(self).token.value == new_value,
    {
        self.token = Token { value: new_value };
    }

    pub fn is_emoji(&self) -> (r: bool)
        ensures
            r == is_emoji_text(self.token.value@),
    {
        self.token.is_emoji()
    }

    pub fn is_punct(&self) -> (r: bool)
        ensures
            r == is_punct_text(self.token.value@),
    {
        self.token.is_punct()
    }

    /// A Weibo hashtag closes with a second `#`.
    pub fn is_hashtag(&self) -> (r: bool)
        ensures
            r == is_weibo_hashtag_text(self.token.value@),
    {
        self.token.check_flag(&TokenPattern::WeiboHashtag)
    }

    pub fn is_url(&self) -> (r: bool)
        ensures
            r == is_url_text(self.token.value@),
    {
        self.token.is_url()
    }

    pub fn is_mention(&self) -> (r: bool)
        ensures
            r == is_mention_text(self.token.value@),
    {
        self.token.is_mention()
    }

    pub fn is_digit(&self) -> (r: bool)
        ensures
            r == is_digit_text(self.token.value@),
    {
        self.token.is_digit()
    }

    pub fn is_email(&self) -> (r: bool)
        ensures
            r == is_email_text(self.token.value@),
    {
        self.token.is_email()
    }

    pub fn is_html_tag(&self) -> (r: bool)
        ensures
            r == is_html_tag_text(self.token.value@),
    {
        self.token.is_html_tag()
    }

    pub fn do_action(&mut self, action: &Action) -> (r: Result<bool, InvalidAction>)
        ensures
            match r {
                Err(_) => action_invalid(action.name_view(), action.action_condition@)
                    && *final(self) == *old(self),
                Ok(b) => {
                    &&& !action_invalid(action.name_view(), action.action_condition@)
                    &&& b == action_fires(
                        action.name_view(),
                        action.action_condition@,
                        old(self).token.value@,
                    )
                    &&& final(self).token.value@ == token_after_action(
                        action.name_view(),
                        action.action_condition@,
                        old(self).token.value@,
                    )
                },
            },
    {
        action.apply(&mut self.token)
    }
}

} // verus!
