use faster_tweet_nlp_toolkit::text_parser::{parse_text, ParsedText};
use faster_tweet_nlp_toolkit::token::Token;
use faster_tweet_nlp_toolkit::tokenizer::tweet_tokenize;

fn get_mock_parsed_text() -> ParsedText {
    let tokens = vec![
        Token { value: String::from("<p>") },
        Token { value: String::from("c'est") },
        Token { value: String::from("</p>") },
        Token { value: String::from("@nlp") },
        Token { value: String::from("https://www.google.fr") },
        Token { value: String::from("cant") },
        Token { value: String::from("wait") },
        Token { value: String::from("\u{1f630}") },
        Token { value: String::from("for") },
        Token { value: String::from("the") },
        Token { value: String::from("new") },
        Token { value: String::from("season") },
        Token { value: String::from("of") },
        Token { value: String::from("tutu@gmail.com") },
        Token { value: String::from(r"\(^o^)/") },
        Token { value: String::from("123") },
        Token { value: String::from("!") },
        Token { value: String::from("#davidlynch") },
        Token { value: String::from("#tvseries") },
    ];
    ParsedText { tokens, split: " ".to_string(), value: None }
}

#[test]
fn test_text_parser_mentions() {
    let mut parsed_text = get_mock_parsed_text();
    assert_eq!(
        parsed_text.value(),
        "<p> c'est </p> @nlp https://www.google.fr cant wait \u{1f630} for the new season of tutu@gmail.com \\(^o^)/ 123 ! #davidlynch #tvseries"
    );
    assert_eq!(parsed_text.mentions(), vec![String::from("@nlp")]);
    assert_eq!(parsed_text.emojis(), vec![String::from("\u{1f630}")]);
    assert_eq!(parsed_text.emoticons(), vec![String::from(r"\(^o^)/")]);
    assert_eq!(parsed_text.digits(), vec![String::from("123")]);
    assert_eq!(parsed_text.emails(), vec![String::from("tutu@gmail.com")]);
    assert_eq!(parsed_text.urls(), vec![String::from("https://www.google.fr")]);
    assert_eq!(parsed_text.len(), 19);

    // get a token's value by index and set it by index
    assert_eq!(parsed_text.tokens[1].value, "c'est");
    parsed_text.tokens[1].value = "cest".to_owned();
    assert_eq!(parsed_text.tokens[1].value, "cest");

    // post-processing collapses the runs of spaces and trims the ends
    parsed_text.value = Some(
        " <p> c'est </p> @nlp     https://www.google.fr cant wait \u{1f630} for the new season of tutu@gmail.com \\(^o^)/ 123 ! #davidlynch #tvseries".to_owned(),
    );
    parsed_text.post_process();
    assert_eq!(
        parsed_text.value(),
        "<p> c'est </p> @nlp https://www.google.fr cant wait \u{1f630} for the new season of tutu@gmail.com \\(^o^)/ 123 ! #davidlynch #tvseries"
    );
}

#[test]
fn test_text_parser_when_there_is_emoji() {
    let mut parsed_text = parse_text(
        String::from(
            "July @AlraashidS @shalsaeedi_ @asaldhferi @Fa3ix_ @iiBeba_ @_hajaraljble \u{2764}\u{fe0f}",
        ),
        None,
        None,
        None,
        None,
        None,
        None,
        Some("remove"),
        None,
        Some("remove"),
        None,
        None,
        None,
        None,
        None,
        None,
    )
    .unwrap();
    assert_eq!(parsed_text.value(), "july");
}

#[test]
fn test_text_parser_with_attached_url_removed() {
    let mut parsed_text = parse_text(
        String::from("asylum seeker:http://t.co/skU8zM7Slh"),
        None,
        None,
        None,
        None,
        None,
        None,
        None,
        None,
        None,
        None,
        Some("remove"),
        None,
        None,
        None,
        None,
    )
    .unwrap();
    assert_eq!(parsed_text.value(), "asylum seeker :");
}

#[test]
fn test_text_parser_with_attached_url_tagged() {
    let mut parsed_text = parse_text(
        String::from("asylum seeker:http://t.co/skU8zM7Slh"),
        None,
        None,
        None,
        None,
        None,
        None,
        None,
        None,
        None,
        None,
        Some("tag"),
        None,
        None,
        None,
        None,
    )
    .unwrap();
    assert_eq!(parsed_text.value(), "asylum seeker : <URL>");
}

#[test]
fn test_text_parser_with_emoji_string() {
    let mut parsed_text = parse_text(
        String::from("@abc:joy:#hashtag"),
        None,
        None,
        None,
        None,
        None,
        None,
        Some("emojize"),
        None,
        None,
        None,
        None,
        None,
        None,
        None,
        None,
    )
    .unwrap();
    assert_eq!(parsed_text.value(), "@abc \u{1f602} #hashtag");
}

#[test]
fn test_text_parser_with_demojize() {
    let mut parsed_text = parse_text(
        String::from("@abc\u{1f602}#hashtag"),
        None,
        None,
        None,
        None,
        None,
        None,
        Some("demojize"),
        None,
        None,
        None,
        None,
        None,
        None,
        None,
        None,
    )
    .unwrap();
    assert_eq!(parsed_text.value(), "@abc :joy: #hashtag");
}

fn token_strings(tokens: Vec<Token>) -> Vec<String> {
    tokens.into_iter().map(|t| t.value).collect()
}

#[test]
fn test_tweet_tokenize() {
    assert_eq!(
        token_strings(tweet_tokenize(" @remy: This is waaaaayyyy #too much for you".to_string())),
        vec!["@remy", ":", "This", "is", "waaaaayyyy", "#too", "much", "for", "you"],
    );
    assert_eq!(
        token_strings(tweet_tokenize(
            " \u{e04}\u{e25}\u{e31}\u{e1a}\u{e1e}\u{e32}\u{e23}\u{e32}\u{e44}\u{e14}\u{e0b}\u{e4c}, \u{e08}\u{e30}\u{e16}\u{e39}\u{e01}\u{e15}\u{e49}\u{e2d}\u{e07}. \u{e27}\u{e31}\u{e19}\u{e2a}\u{e38}\u{e14}\u{e17}\u{e49}\u{e32}\u{e22}\u{e17}\u{e38}\u{e01}\u{e2a}\u{e34}\u{e48}\u{e07}\u{e17}\u{e35}\u{e48}\u{e14}\u{e39}\u{e40}\u{e2b}\u{e21}\u{e37}\u{e2d}\u{e19}\u{e27}\u{e48}\u{e32}\u{e15}\u{e01}\u{e25}\u{e07}".to_string()
        )),
        vec![
            "\u{e04}\u{e25}\u{e31}\u{e1a}\u{e1e}\u{e32}\u{e23}\u{e32}\u{e44}\u{e14}\u{e0b}\u{e4c}",
            ",",
            "\u{e08}\u{e30}\u{e16}\u{e39}\u{e01}\u{e15}\u{e49}\u{e2d}\u{e07}",
            ".",
            "\u{e27}\u{e31}\u{e19}\u{e2a}\u{e38}\u{e14}\u{e17}\u{e49}\u{e32}\u{e22}\u{e17}\u{e38}\u{e01}\u{e2a}\u{e34}\u{e48}\u{e07}\u{e17}\u{e35}\u{e48}\u{e14}\u{e39}\u{e40}\u{e2b}\u{e21}\u{e37}\u{e2d}\u{e19}\u{e27}\u{e48}\u{e32}\u{e15}\u{e01}\u{e25}\u{e07}",
        ],
    );
    assert_eq!(
        token_strings(tweet_tokenize("http://t.co/skU8zM7Slh :joy:".to_string())),
        vec!["http://t.co/skU8zM7Slh", ":joy:"],
    );
    // The composite alternation has no emoticon branch, so an emoticon
    // falls apart into one-character tokens.
    assert_eq!(
        token_strings(tweet_tokenize(r"123 @hello #world \(^o^)/ www.url.com :) abc@gmail.com".to_string())),
        vec![
            "123", "@hello", "#world", r"\", "(", "^", "o", "^", ")", "/", "www.url.com", ":",
            ")", "abc@gmail.com",
        ],
    );
}

#[test]
fn test_tokenize_empty_input() {
    assert_eq!(tweet_tokenize(String::new()).len(), 0);
    assert_eq!(tweet_tokenize("   ".to_string()).len(), 0);
}

#[test]
fn test_parse_scenario_plain_tokens() {
    let mut parsed = parse_text(
        String::from("123 @hello #world www.url.com abc@gmail.com"),
        None,
        None,
        None,
        None,
        None,
        None,
        None,
        None,
        None,
        None,
        None,
        None,
        None,
        None,
        None,
    )
    .unwrap();
    let values: Vec<String> = parsed.tokens.iter().map(|t| t.value.clone()).collect();
    assert_eq!(values, vec!["123", "@hello", "#world", "www.url.com", "abc@gmail.com"]);
    assert_eq!(parsed.hashtags(), vec![String::from("world")]);
    assert_eq!(parsed.mentions(), vec![String::from("@hello")]);
    assert_eq!(parsed.urls(), vec![String::from("www.url.com")]);
    assert_eq!(parsed.emails(), vec![String::from("abc@gmail.com")]);
    // Round trip: clean single-spaced text comes back verbatim.
    assert_eq!(parsed.value(), "123 @hello #world www.url.com abc@gmail.com");
}

#[test]
fn test_parse_invalid_action_is_error() {
    let err = parse_text(
        String::from("#hashtag"),
        None,
        None,
        None,
        None,
        None,
        None,
        None,
        None,
        None,
        Some("emojize"),
        None,
        None,
        None,
        None,
        None,
    )
    .unwrap_err();
    assert_eq!(err.action_name, "emojize");
    assert_eq!(err.action_condition, "is_hashtag");
}

#[test]
fn test_parse_remove_everything_gives_empty_value() {
    let mut parsed = parse_text(
        String::from("123 @a #b1 :) <p>"),
        None,
        None,
        None,
        None,
        None,
        None,
        Some("remove"),
        Some("remove"),
        Some("remove"),
        Some("remove"),
        Some("remove"),
        Some("remove"),
        Some("remove"),
        Some("remove"),
        Some("remove"),
    )
    .unwrap();
    assert_eq!(parsed.value(), "");
    assert_eq!(parsed.len(), 0);
}

#[test]
fn test_process_invalidates_memoized_value() {
    let mut parsed = ParsedText {
        tokens: vec![
            Token { value: String::from("#a1") },
            Token { value: String::from("x") },
        ],
        split: " ".to_string(),
        value: Some("stale".to_string()),
    };
    parsed
        .process(None, Some("remove"), None, None, None, None, None, None, None)
        .unwrap();
    assert_eq!(parsed.value(), "x");
}

#[test]
fn test_post_process_is_idempotent() {
    let mut parsed = ParsedText {
        tokens: vec![],
        split: " ".to_string(),
        value: Some("  a   b \u{a0} c  ".to_string()),
    };
    parsed.post_process();
    let once = parsed.value();
    assert_eq!(once, "a b c");
    parsed.post_process();
    assert_eq!(parsed.value(), once);
}

#[test]
fn test_parse_with_filters() {
    let filters = vec![String::from("the")];
    let mut parsed = parse_text(
        String::from("the cat saw the dog"),
        None,
        None,
        None,
        None,
        None,
        Some(&filters),
        None,
        None,
        None,
        None,
        None,
        None,
        None,
        None,
        None,
    )
    .unwrap();
    assert_eq!(parsed.value(), "cat saw dog");
}
