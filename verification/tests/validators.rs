use ezmsg::validators::{
    find_topic_fault, is_topic_char, is_topic_leading_char, may_follow, validate_topic, verdict,
    TopicFault,
};
use ezmsg::Error;

fn bad_format(r: Result<(), Error>) -> String {
    match r {
        Err(Error::BadFormat(s)) => s,
        Err(e) => panic!("Unexpected error: {:?}", e),
        Ok(()) => panic!("Unexpected success"),
    }
}

#[test]
fn ok_topic_1() {
    assert!(validate_topic("Foobar").is_ok());
}

#[test]
fn broken_topic_1() {
    if let Err(e) = validate_topic("") {
        match e {
            Error::BadFormat(s) => {
                assert_eq!(s, "Empty or broken string");
            }
            _ => {
                panic!("Unexpected error");
            }
        }
    } else {
        panic!("Unexpected success");
    }
}

#[test]
fn leading_character_must_be_a_letter() {
    for topic in ["1abc", "_abc", "-abc", " abc", "9", "\u{0663}x", "!", "\n"] {
        assert_eq!(bad_format(validate_topic(topic)), "Invalid leading character");
        assert_eq!(find_topic_fault(topic), Some(TopicFault::Leading));
    }
}

#[test]
fn leading_fault_wins_over_later_ones() {
    assert_eq!(bad_format(validate_topic("1 b")), "Invalid leading character");
}

#[test]
fn later_characters_must_be_word_characters() {
    for topic in ["a b", "ab!", "a.b", "Some Topic", "a\n", "x\u{1F49D}", "a/b"] {
        assert_eq!(bad_format(validate_topic(topic)), "Invalid heading");
        assert_eq!(find_topic_fault(topic), Some(TopicFault::Heading));
    }
}

#[test]
fn letters_digits_underscores_and_hyphens_are_accepted() {
    for topic in ["a", "Z", "SomeTopic", "a1", "a_b-c", "T-_-9", "x0123456789", "a--", "b__"] {
        assert!(validate_topic(topic).is_ok(), "{}", topic);
        assert_eq!(find_topic_fault(topic), None);
    }
}

#[test]
fn letters_and_digits_beyond_ascii_are_accepted() {
    for topic in ["\u{00E9}t\u{00E9}", "\u{4EAC}\u{90FD}", "K\u{00F6}ln-1", "a\u{0663}", "a\u{00BE}"] {
        assert!(validate_topic(topic).is_ok(), "{}", topic);
    }
}

#[test]
fn empty_string_is_its_own_fault() {
    assert_eq!(find_topic_fault(""), Some(TopicFault::Empty));
}

#[test]
fn character_classes() {
    assert!(is_topic_leading_char('a'));
    assert!(is_topic_leading_char('\u{4EAC}'));
    assert!(!is_topic_leading_char('1'));
    assert!(!is_topic_leading_char('_'));
    assert!(is_topic_char('a'));
    assert!(is_topic_char('7'));
    assert!(is_topic_char('_'));
    assert!(is_topic_char('-'));
    assert!(!is_topic_char(' '));
    assert!(!is_topic_char('.'));
    assert!(!is_topic_char('\n'));
}

#[test]
fn underscore_and_hyphen_may_follow_whatever_unicode_says() {
    assert!(may_follow(false, '_'));
    assert!(may_follow(false, '-'));
    assert!(may_follow(true, '_'));
    assert!(may_follow(true, 'x'));
    assert!(may_follow(true, ' '));
    assert!(!may_follow(false, 'x'));
    assert!(!may_follow(false, ' '));
    assert!(!may_follow(false, '+'));
}

#[test]
fn verdict_reports_each_fault_in_its_words() {
    assert!(verdict(None).is_ok());
    assert_eq!(bad_format(verdict(Some(TopicFault::Empty))), "Empty or broken string");
    assert_eq!(bad_format(verdict(Some(TopicFault::Leading))), "Invalid leading character");
    assert_eq!(bad_format(verdict(Some(TopicFault::Heading))), "Invalid heading");
}

#[test]
fn fault_to_error_is_bad_format() {
    assert!(matches!(TopicFault::Empty.to_error(), Error::BadFormat(_)));
    assert!(matches!(TopicFault::Leading.to_error(), Error::BadFormat(_)));
    assert!(matches!(TopicFault::Heading.to_error(), Error::BadFormat(_)));
}
