//! Text normalization and tokenization for short, noisy social-media text.
//!
//! The library segments raw text into typed tokens (words, URLs, mentions,
//! hashtags, digits, emoji, emoticons, email addresses, HTML tags,
//! punctuation), classifies each token by content, and applies per-category
//! rewrite actions (remove, replace with a tag, demojize, emojize).
//!
//! The data flow is: raw text, cleaned by [`text_prep::preprocess_text`];
//! segmented by [`tokenizer::tweet_tokenize`] under the grammars of
//! [`patterns`] and [`emoticons`]; rewritten token by token through
//! [`token::Action`]; and joined into the final value by
//! [`text_parser::ParsedText`].

pub mod chars;
pub mod scan;
pub mod patterns;
pub mod emoticons;
pub mod strutil;
pub mod emoji;
pub mod token;
pub mod tokenizer;
pub mod utils;
pub mod text_prep;
pub mod text_parser;
pub mod laws;
