use tsconv::plan::{plan, Job};
use tsconv::tokens::{classify_token, parse_timestamp_list, split_commas, Token};

#[test]
fn blank_pieces_are_blank() {
    assert_eq!(classify_token(""), Token::Blank);
    assert_eq!(classify_token("   "), Token::Blank);
    assert_eq!(classify_token("\t\u{3000}\u{a0}"), Token::Blank);
}

#[test]
fn integers_read_after_trimming() {
    assert_eq!(classify_token("42"), Token::Value(42));
    assert_eq!(classify_token(" 42 "), Token::Value(42));
    assert_eq!(classify_token("\u{3000}5\u{a0}"), Token::Value(5));
    assert_eq!(classify_token("+7"), Token::Value(7));
    assert_eq!(classify_token("-1725932348"), Token::Value(-1_725_932_348));
    assert_eq!(classify_token("9223372036854775807"), Token::Value(i64::MAX));
    assert_eq!(classify_token("-9223372036854775808"), Token::Value(i64::MIN));
}

#[test]
fn non_integers_are_invalid() {
    assert_eq!(classify_token("abc"), Token::Invalid("abc".to_string()));
    assert_eq!(classify_token(" 1x "), Token::Invalid(" 1x ".to_string()));
    assert_eq!(classify_token("-"), Token::Invalid("-".to_string()));
    assert_eq!(classify_token("1.5"), Token::Invalid("1.5".to_string()));
    assert_eq!(classify_token("1 2"), Token::Invalid("1 2".to_string()));
    assert_eq!(
        classify_token("9223372036854775808"),
        Token::Invalid("9223372036854775808".to_string())
    );
}

#[test]
fn split_keeps_empty_pieces() {
    assert_eq!(split_commas(""), vec![String::new()]);
    assert_eq!(split_commas("1"), vec!["1".to_string()]);
    assert_eq!(
        split_commas(",1,,2,"),
        vec![
            String::new(),
            "1".to_string(),
            String::new(),
            "2".to_string(),
            String::new()
        ]
    );
    assert_eq!(split_commas("\u{3bc},a"), vec!["\u{3bc}".to_string(), "a".to_string()]);
}

#[test]
fn list_reads_each_piece() {
    assert_eq!(
        parse_timestamp_list("1, ,abc,2"),
        vec![
            Token::Value(1),
            Token::Blank,
            Token::Invalid("abc".to_string()),
            Token::Value(2)
        ]
    );
}

#[test]
fn nothing_to_do_without_timestamps_or_now() {
    assert_eq!(plan(&None, false), Vec::<Job>::new());
}

#[test]
fn now_alone() {
    assert_eq!(plan(&None, true), vec![Job::Now]);
}

#[test]
fn blank_pieces_are_dropped() {
    let args = Some(vec![",1725932348,, ,1725932349,".to_string()]);
    assert_eq!(
        plan(&args, false),
        vec![Job::Report(1_725_932_348), Job::Report(1_725_932_349)]
    );
}

#[test]
fn invalid_piece_is_diagnosed_and_the_rest_go_on() {
    let args = Some(vec!["1725932348,abc,1725932349".to_string()]);
    assert_eq!(
        plan(&args, true),
        vec![
            Job::Report(1_725_932_348),
            Job::Diagnose("abc".to_string()),
            Job::Report(1_725_932_349),
            Job::Now
        ]
    );
}

#[test]
fn several_arguments_in_order() {
    let args = Some(vec!["1,2".to_string(), "3".to_string(), String::new()]);
    assert_eq!(plan(&args, false), vec![Job::Report(1), Job::Report(2), Job::Report(3)]);
}
