use faster_tweet_nlp_toolkit::token::{Action, Token, TokenPattern, WeiboToken};

#[test]
fn test_is_hashtag() {
    let cases: Vec<(&str, bool)> = vec![
        ("#emnlp2019", true),
        ("#pr\u{e9}d\u{e9}finie", true),
        ("#\u{424}\u{438}\u{43b}\u{43c}", true),
        ("#\u{c815}\u{ad6d}\u{c0dd}\u{c77c}\u{110e}\u{110f}", true),
        ("#123", false),
        ("#\u{661}\u{662}", false),
        ("#\u{bd}", false),
        ("#a-b", true),
        ("#-ab", false),
        ("nothashtag", false),
    ];
    for (value, expected) in cases {
        let token = Token { value: String::from(value) };
        assert_eq!(expected, token.is_hashtag(), "case {value}");
    }
}

#[test]
fn test_is_url() {
    let cases: Vec<(&str, bool)> = vec![
        ("https://buff.ly/2Uclr2A", true),
        ("www.google.fr", true),
        ("http://t.co/skU8zM7Slh", true),
        ("http://nodot", false),
        ("word", false),
    ];
    for (value, expected) in cases {
        let token = Token { value: String::from(value) };
        assert_eq!(expected, token.is_url(), "case {value}");
    }
}

#[test]
fn test_is_mention() {
    let cases: Vec<(&str, bool)> = vec![("@tutu", true), ("@@", false), ("tutu@gmail.com", false)];
    for (value, expected) in cases {
        let token = Token { value: String::from(value) };
        assert_eq!(expected, token.is_mention(), "case {value}");
    }
}

#[test]
fn test_is_emoji() {
    let cases: Vec<(&str, bool)> = vec![
        ("\u{1f630}", true),
        (":joy:", true),
        (":notemoji:", false),
        (":", false),
        ("::", false),
    ];
    for (value, expected) in cases {
        let token = Token { value: String::from(value) };
        assert_eq!(expected, token.is_emoji(), "case {value}");
    }
}

#[test]
fn test_is_digit() {
    let cases: Vec<(&str, bool)> = vec![
        ("1", true),
        ("123", true),
        ("12.34", true),
        ("12/34", true),
        ("-2", true),
        ("\u{661}\u{662}", true),
        ("12abc", false),
    ];
    for (value, expected) in cases {
        let token = Token { value: String::from(value) };
        assert_eq!(expected, token.is_digit(), "case {value}");
    }
}

#[test]
fn test_is_punct() {
    let cases: Vec<(&str, bool)> = vec![
        (",", true),
        ("\u{3002}", true),
        ("\u{2019}", true),
        ("@nlp", false),
        ("#nlp", false),
        ("12", false),
    ];
    for (value, expected) in cases {
        let token = Token { value: String::from(value) };
        assert_eq!(expected, token.is_punct(), "case {value}");
    }
}

#[test]
fn test_is_email() {
    let cases: Vec<(&str, bool)> = vec![("tutu@gmail.com", true), ("@tutu", false)];
    for (value, expected) in cases {
        let token = Token { value: String::from(value) };
        assert_eq!(expected, token.is_email(), "case {value}");
    }
}

#[test]
fn test_is_html_tag() {
    let cases: Vec<(&str, bool)> = vec![("<p>", true), ("</p>", true), ("</p", false)];
    for (value, expected) in cases {
        let token = Token { value: String::from(value) };
        assert_eq!(expected, token.is_html_tag(), "case {value}");
    }
}

#[test]
fn test_is_emoticon() {
    let cases: Vec<(&str, bool)> = vec![
        (":)", true),
        ("(\u{25d5}\u{203f}\u{25d5}\u{273f})", true),
        ("\\(^o^)/", true),
        (":D", true),
        ("^_^", true),
        ("<3", true),
        ("!", false),
        ("@nlp", false),
        ("123", false),
        ("https://www.google.fr", false),
    ];
    for (value, expected) in cases {
        let token = Token { value: String::from(value) };
        assert_eq!(expected, token.is_emoticon(), "case {value}");
    }
}

#[test]
fn test_token_check_flag() {
    let token = Token { value: "#hashtag".to_owned() };
    assert!(token.check_flag(&TokenPattern::Hashtag));
    let token = Token { value: "not_hashtag".to_owned() };
    assert!(!token.check_flag(&TokenPattern::Hashtag))
}

#[test]
fn test_token_do_action_remove() {
    let mut token = Token { value: "#hashtag".to_owned() };
    token
        .do_action(
            &Action {
                action_name: Some(String::from("remove")),
                action_condition: "is_hashtag".to_owned(),
            },
        )
        .unwrap();
    assert_eq!(token.value, "")
}

#[test]
fn test_token_do_action_tag() {
    let mut token = Token { value: String::from("#hashtag") };
    token
        .do_action(
            &Action {
                action_name: Some(String::from("tag")),
                action_condition: "is_hashtag".to_owned(),
            },
        )
        .unwrap();
    assert_eq!(token.value, "<HASHTAG>")
}

#[test]
fn test_token_do_action_none() {
    let mut token = Token { value: "#hashtag".to_owned() };
    token
        .do_action(&Action { action_name: None, action_condition: "is_hashtag".to_owned() })
        .unwrap();
    assert_eq!(token.value, "#hashtag")
}

#[test]
fn test_action_remove() {
    // arguments are not important here
    let action = Action {
        action_name: Some(String::from("unittest")),
        action_condition: "unitest".to_owned(),
    };
    let mut token = Token { value: "test".to_owned() };
    action.remove(&mut token);
    assert_eq!(token.value, "")
}

#[test]
fn test_action_demojize() {
    // arguments are not important here
    let action = Action {
        action_name: Some(String::from("unittest")),
        action_condition: "unitest".to_owned(),
    };
    let mut token = Token { value: "\u{1f600}".to_owned() };
    action.demojize(&mut token);
    assert_eq!(token.value, ":grinning:")
}

#[test]
fn test_action_emojize() {
    // arguments are not important here
    let action = Action {
        action_name: Some(String::from("unittest")),
        action_condition: "unitest".to_owned(),
    };
    let mut token = Token { value: ":grinning:".to_owned() };
    action.emojize(&mut token);
    assert_eq!(token.value, "\u{1f600}")
}

#[test]
fn test_action_tag() {
    let action = Action {
        action_name: Some(String::from("tag")),
        action_condition: "is_emoji".to_owned(),
    };
    let mut token = Token { value: "\u{1f630}".to_owned() };
    action.tag(&mut token);
    assert_eq!(token.value, "<EMOJI>")
}

#[test]
fn test_action_is_action_valid() {
    let action = Action {
        action_name: Some(String::from("")),
        action_condition: "is_hashtag".to_owned(),
    };
    assert_eq!(action.is_action_valid().unwrap(), false);
    let action = Action {
        action_name: Some(String::from("remove")),
        action_condition: "is_hashtag".to_owned(),
    };
    assert_eq!(action.is_action_valid().unwrap(), true);
    let action = Action {
        action_name: Some(String::from("tag")),
        action_condition: "is_hashtag".to_owned(),
    };
    assert_eq!(action.is_action_valid().unwrap(), true);
}

#[test]
fn test_action_is_action_valid_with_none_action_name() {
    let action = Action { action_name: None, action_condition: "is_hashtag".to_owned() };
    assert_eq!(action.is_action_valid().unwrap(), false)
}

#[test]
fn test_action_is_action_valid_with_action_is_not_allowed() {
    // Requesting emojize on the hashtag category is a configuration error.
    let action = Action {
        action_name: Some("emojize".to_owned()),
        action_condition: "is_hashtag".to_owned(),
    };
    let err = action.is_action_valid().unwrap_err();
    assert_eq!(err.action_name, "emojize");
    assert_eq!(err.action_condition, "is_hashtag");
}

#[test]
fn test_action_apply_returning_true() {
    let action = Action {
        action_name: Some("remove".to_owned()),
        action_condition: "is_hashtag".to_owned(),
    };
    let mut token = Token { value: "#hashtag".to_owned() };
    assert_eq!(action.apply(&mut token).unwrap(), true)
}

#[test]
fn test_action_apply_returning_false() {
    let action = Action {
        action_name: Some("remove".to_owned()),
        action_condition: "is_hashtag".to_owned(),
    };
    let mut token = Token { value: String::from("@hashtag") };
    assert_eq!(action.apply(&mut token).unwrap(), false)
}

#[test]
fn test_action_apply_invalid_is_error() {
    // An operation outside the category's legal set aborts the call and is
    // never silently ignored.
    let action = Action {
        action_name: Some("emojize".to_owned()),
        action_condition: "is_hashtag".to_owned(),
    };
    let mut token = Token { value: "#hashtag".to_owned() };
    let err = action.apply(&mut token).unwrap_err();
    assert_eq!(err.action_name, "emojize");
    assert_eq!(token.value, "#hashtag");
}

#[test]
fn test_is_weibo_hashtag() {
    let token = WeiboToken::new(String::from("#\u{4e2d}\u{56fd}"));
    assert_eq!(false, token.is_hashtag());
    let token = WeiboToken::new(String::from("#\u{4e2d}\u{56fd}#"));
    assert_eq!(true, token.is_hashtag());
}

#[test]
fn test_weibo_token_delegates() {
    let mut token = WeiboToken::new(String::from("@tutu"));
    assert!(token.is_mention());
    assert!(!token.is_email());
    token.set_value(String::from("12.34"));
    assert!(token.is_digit());
    assert!(!token.is_punct());
    let removed = token
        .do_action(
            &Action {
                action_name: Some(String::from("remove")),
                action_condition: "is_digit".to_owned(),
            },
        )
        .unwrap();
    assert!(removed);
    assert_eq!(token.token.value, "");
}
