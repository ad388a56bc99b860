[package]
name = "faster_tweet_nlp_toolkit"
version = "0.1.0"
edition = "2021"
publish = false

[dependencies]
emojis = "*"
unicode_categories = "*"
unicode-normalization = "*"
html-escape = "*"
encoding_rs = "*"
