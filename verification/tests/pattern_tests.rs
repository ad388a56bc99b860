use faster_tweet_nlp_toolkit::token::{Token, TokenPattern};
use faster_tweet_nlp_toolkit::tokenizer::tweet_tokenize;

fn values(text: &str) -> Vec<String> {
    tweet_tokenize(text.to_string()).into_iter().map(|t| t.value).collect()
}

#[test]
fn test_url_forms() {
    let cases: Vec<(&str, bool)> = vec![
        ("http://a.bc", true),
        ("https://a.bc", true),
        ("http://ab", false),
        ("http://.ab", false),
        ("www.a.bc", true),
        ("www.ab", false),
        ("www.a.b", false),
        ("http://a.b c", false),
    ];
    for (value, expected) in cases {
        let token = Token { value: String::from(value) };
        assert_eq!(expected, token.is_url(), "case {value}");
    }
}

#[test]
fn test_email_forms() {
    let cases: Vec<(&str, bool)> = vec![
        ("a.b@c.de", true),
        ("a+b@c.de", true),
        ("a..b@c.de", false),
        (".a@c.de", false),
        ("a.@c.de", false),
        ("a@b-c.de", true),
        ("a@b--c.de", false),
        ("a@b-.de", false),
        ("a@b.c2", false),
        ("a@b.cd.ef.gh", true),
        ("a@b.cd.ef.gh.ij", false),
        ("a@b.c", false),
    ];
    for (value, expected) in cases {
        let token = Token { value: String::from(value) };
        assert_eq!(expected, token.is_email(), "case {value}");
    }
}

#[test]
fn test_digit_forms() {
    let cases: Vec<(&str, bool)> = vec![
        ("+1", true),
        ("-1", true),
        ("1:30", true),
        ("1,000", true),
        ("5-", true),
        ("1+2", false),
        ("1.2.3", false),
        ("", false),
        ("+", false),
    ];
    for (value, expected) in cases {
        let token = Token { value: String::from(value) };
        assert_eq!(expected, token.is_digit(), "case {value}");
    }
}

#[test]
fn test_more_emoticons() {
    let cases: Vec<(&str, bool)> = vec![
        (":-)", true),
        ("8)", true),
        ("D:", true),
        ("):", true),
        ("(T_T)", true),
        ("^5", true),
        ("O_o", true),
        ("\\o/", true),
        ("--", false),
        ("..", false),
        (".", false),
        ("ab", false),
    ];
    for (value, expected) in cases {
        let token = Token { value: String::from(value) };
        assert_eq!(expected, token.is_emoticon(), "case {value}");
    }
}

#[test]
fn test_check_flag_patterns() {
    let token = Token { value: "#123".to_owned() };
    assert!(token.check_flag(&TokenPattern::Hashtag));
    assert!(token.check_flag(&TokenPattern::NotAHashtag));
    assert!(!token.is_hashtag());
    let token = Token { value: "12.34".to_owned() };
    assert!(token.check_flag(&TokenPattern::Digit));
    let token = Token { value: "<div>".to_owned() };
    assert!(token.check_flag(&TokenPattern::HtmlTag));
    let token = Token { value: ":)".to_owned() };
    assert!(token.check_flag(&TokenPattern::Emoticons));
}

#[test]
fn test_tokenize_arrows_and_ellipses() {
    assert_eq!(values("a --> b"), vec!["a", "-->", "b"]);
    assert_eq!(values("x <-- y"), vec!["x", "<--", "y"]);
    assert_eq!(values("wait ... go"), vec!["wait", "...", "go"]);
    assert_eq!(values("so . . . what"), vec!["so", ". . .", "what"]);
}

#[test]
fn test_tokenize_html_and_digits() {
    assert_eq!(values("<p>hello</p>"), vec!["<p>", "hello", "</p>"]);
    assert_eq!(values("1.5kg"), vec!["1.5", "kg"]);
    assert_eq!(values("12abc"), vec!["12", "abc"]);
}

#[test]
fn test_tokenize_hashtag_trailing_hyphen() {
    assert_eq!(values("#tag- x"), vec!["#tag", "-", "x"]);
    assert_eq!(values("#a-b"), vec!["#a-b"]);
}

#[test]
fn test_tokenize_alias_and_mention_boundaries() {
    assert_eq!(values("hi:joy:there"), vec!["hi", ":joy:", "there"]);
    assert_eq!(values("@user: hello"), vec!["@user", ":", "hello"]);
    assert_eq!(values("a@b@c.de"), vec!["a", "@b", "@c", ".", "de"]);
}
