use faster_tweet_nlp_toolkit::text_prep::{prep, preprocess_text};
use faster_tweet_nlp_toolkit::utils::{
    preprocess_url, reduce_lengthening, remove_variation_selectors, strip_accents_unicode,
};

#[test]
fn test_strip_accents_unicode() {
    assert_eq!(strip_accents_unicode("\u{ea}tre"), "etre");
}

#[test]
fn utils_test_strip_accents_unicode() {
    assert_eq!(strip_accents_unicode("\u{ea}tre"), "etre");
}

#[test]
fn test_preprocess_url() {
    assert_eq!(preprocess_url(":http://t.co/skU8zM7Slh"), ": http://t.co/skU8zM7Slh");
}

#[test]
fn test_remove_variation_selectors() {
    assert_eq!(remove_variation_selectors("\u{fe00}"), "");
    assert_eq!(remove_variation_selectors("\u{2764}\u{fe0f}"), "\u{2764}");
}

#[test]
fn test_reduce_lengthening() {
    assert_eq!(
        reduce_lengthening("This is waaaaayyyy too much for you!!!!!!"),
        "This is waaayyy too much for you!!!"
    );
    assert_eq!(reduce_lengthening("aaa"), "aaa");
    assert_eq!(reduce_lengthening(""), "");
}

#[test]
fn test_preprocess_reduces_repeats() {
    let cleaned = preprocess_text(
        String::from("waaaaayyyy"),
        None,
        None,
        None,
        None,
        Some(true),
    );
    assert_eq!(cleaned, "waaayyy");
}

#[test]
fn test_preprocess_lowercases_by_default() {
    assert_eq!(preprocess_text(String::from("HeLLo"), None, None, None, None, None), "hello");
    assert_eq!(
        preprocess_text(String::from("HeLLo"), None, None, Some(false), None, None),
        "HeLLo"
    );
}

#[test]
fn test_preprocess_decodes_entities() {
    assert_eq!(
        preprocess_text(String::from("a &amp; b"), None, None, None, None, None),
        "a & b"
    );
}

#[test]
fn test_preprocess_repairs_apostrophes() {
    assert_eq!(preprocess_text(String::from("c?est"), None, None, None, None, None), "c'est");
    assert_eq!(
        preprocess_text(String::from("why? not"), None, None, None, None, None),
        "why? not"
    );
    assert_eq!(preprocess_text(String::from("a ? b"), None, None, None, None, None), "a ? b");
}

#[test]
fn test_preprocess_replacement_characters() {
    assert_eq!(
        preprocess_text(
            String::from("ab\u{fffd}\u{fffd}"),
            Some("utf-8"),
            Some(true),
            None,
            None,
            None,
        ),
        "ab"
    );
    assert_eq!(
        preprocess_text(
            String::from("ab\u{fffd}\u{fffd}\u{fffd}"),
            Some("utf-8"),
            Some(false),
            None,
            None,
            None,
        ),
        "ab\u{fffd}"
    );
}

#[test]
fn test_prep_returns_final_value() {
    let value = prep(
        String::from("123 @hello #world"),
        None,
        None,
        None,
        None,
        None,
        None,
        None,
        None,
        Some("remove"),
        None,
        None,
        Some("tag"),
        None,
        None,
        None,
    )
    .unwrap();
    assert_eq!(value, "<DIGIT> #world");
}

#[test]
fn test_prep_empty_input() {
    let value = prep(
        String::new(),
        None,
        None,
        None,
        None,
        None,
        None,
        None,
        None,
        None,
        None,
        None,
        None,
        None,
        None,
        None,
    )
    .unwrap();
    assert_eq!(value, "");
}
