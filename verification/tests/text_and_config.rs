//! Texts, options, failures and errors.

use ssh_session::config::{config_hostname, config_port, config_user, ConfigMap};
use ssh_session::failure::{is_would_block, Failure, IoError, IoErrorKind};
use ssh_session::text::{
    characters, contains_text, decimal_text, parse_number, same_text, split_words, white_space,
    NumberError,
};

fn config(options: &[(&str, &str)]) -> ConfigMap {
    let mut map = ConfigMap::new();
    for (name, value) in options {
        map.insert(name.to_string(), value.to_string());
    }
    map
}

fn line<T>(r: Result<T, Failure>) -> String {
    match r {
        Ok(_) => panic!("expected a failure"),
        Err(failure) => failure.to_line(),
    }
}

#[test]
fn white_space_is_what_the_standard_library_says() {
    for c in '\0'..=char::MAX {
        assert_eq!(white_space(c), c.is_whitespace(), "{:?}", c);
    }
}

#[test]
fn words_are_what_the_standard_library_says() {
    let cases = [
        "",
        " ",
        "one",
        " one",
        "one ",
        "one two",
        "\t one \n two\u{3000}three \u{2029}",
        "~/.ssh/id_rsa ~/.ssh/id_ed25519",
        "\u{e9}t\u{e9} hiver",
    ];
    for case in cases {
        let expected: Vec<String> = case.split_whitespace().map(|w| w.to_string()).collect();
        assert_eq!(split_words(case), expected);
    }
}

#[test]
fn every_number_reads_back() {
    for n in 0..=u16::MAX {
        let text = decimal_text(n as u64);
        assert_eq!(text, n.to_string());
        assert!(matches!(parse_number(&text), Ok(m) if m == n));
    }
}

#[test]
fn numbers_are_read_as_the_standard_library_reads_them() {
    let cases = [
        "", "+", "-", "0", "+0", "-0", "22", "+22", "-22", "022", "00000000022", "65535", "65536",
        "+65535", "+65536", "99999", "65536x", "6553x6", "x65536", "2 2", " 22", "22 ", "\u{663}",
        "1e3", "++1", "+-1", "999999999999999999999999", "99999999999999999999999x",
    ];
    for case in cases {
        let expected = case.parse::<u16>();
        let mut map = ConfigMap::new();
        map.insert("port".to_string(), case.to_string());
        match (expected, config_port(&map)) {
            (Ok(a), Ok(b)) => assert_eq!(a, b, "{:?}", case),
            (Err(a), Err(b)) => assert_eq!(a.to_string(), b.to_line(), "{:?}", case),
            (a, b) => panic!("{:?}: {:?} and {:?}", case, a, b),
        }
    }
}

#[test]
fn each_number_error_comes_up() {
    assert_eq!(parse_number("22").ok(), Some(22));
    assert!(matches!(parse_number(""), Err(NumberError::Empty)));
    assert!(matches!(parse_number("ssh"), Err(NumberError::InvalidDigit)));
    assert!(matches!(parse_number("70000"), Err(NumberError::Overflow)));
}

#[test]
fn decimal_goes_up_to_the_largest_number() {
    assert_eq!(decimal_text(0), "0");
    assert_eq!(decimal_text(10), "10");
    assert_eq!(decimal_text(8192), "8192");
    assert_eq!(decimal_text(u64::MAX), u64::MAX.to_string());
}

#[test]
fn texts_are_compared_and_searched() {
    assert!(same_text("inet", "inet"));
    assert!(!same_text("inet", "inet6"));
    assert!(!same_text("Inet", "inet"));
    assert!(same_text("", ""));
    assert_eq!(characters("a\u{e9}b"), vec!['a', '\u{e9}', 'b']);
    for (haystack, needle) in [
        ("Would block", "Would block"),
        ("it Would block now", "Would block"),
        ("would block", "Would block"),
        ("TryAgai", "TryAgain"),
        ("TTryAgain", "TryAgain"),
        ("", ""),
        ("", "x"),
        ("x", ""),
        ("aab", "ab"),
    ] {
        assert_eq!(contains_text(haystack, needle), haystack.contains(needle));
    }
}

#[test]
fn host_user_and_port_are_looked_up() {
    let map = config(&[("hostname", "localhost"), ("user", "me"), ("port", "2222")]);
    assert_eq!(config_hostname(&map).ok().as_deref(), Some("localhost"));
    assert_eq!(config_user(&map).ok().as_deref(), Some("me"));
    assert_eq!(config_port(&map).ok(), Some(2222));
}

#[test]
fn what_is_missing_is_reported() {
    let map = config(&[]);
    assert_eq!(line(config_hostname(&map)), "hostname not present in config");
    assert_eq!(line(config_user(&map)), "username not present in config");
    assert_eq!(line(config_port(&map)), "port is always set in config loader");
}

#[test]
fn a_port_that_is_no_number_is_reported() {
    assert_eq!(
        line(config_port(&config(&[("port", "")]))),
        "cannot parse integer from empty string"
    );
    assert_eq!(line(config_port(&config(&[("port", "ssh")]))), "invalid digit found in string");
    assert_eq!(
        line(config_port(&config(&[("port", "65536")]))),
        "number too large to fit in target type"
    );
}

#[test]
fn the_last_value_of_an_option_counts() {
    let map = config(&[("port", "22"), ("port", "2222")]);
    assert_eq!(config_port(&map).ok(), Some(2222));
    assert!(map.is("port", "2222"));
    assert!(!map.is("port", "22"));
    assert!(!map.is("user", "me"));
    assert!(map.get("user").is_none());
}

#[test]
fn a_failure_reads_from_the_outside_in() {
    let failure = Failure::message("refused".to_string());
    assert_eq!(failure.to_line(), "refused");
    let failure = failure.context("Connecting to h:22".to_string());
    assert_eq!(failure.to_line(), "Connecting to h:22: refused");
    let failure = failure.context("connecting ProxyJump host h".to_string());
    assert_eq!(failure.to_line(), "connecting ProxyJump host h: Connecting to h:22: refused");
    assert_eq!(Failure { chain: Vec::new() }.to_line(), "");
}

#[test]
fn errors_that_only_ask_to_wait_are_told_apart() {
    let err = |kind, message: &str| IoError { kind, message: message.to_string() };
    assert!(is_would_block(&err(IoErrorKind::WouldBlock, "anything")));
    assert!(is_would_block(&err(IoErrorKind::Other, "[Session(-37)] Would block")));
    assert!(is_would_block(&err(IoErrorKind::Other, "TryAgain")));
    assert!(!is_would_block(&err(IoErrorKind::Other, "would block")));
    assert!(!is_would_block(&err(IoErrorKind::Other, "broken pipe")));
    assert!(!is_would_block(&err(IoErrorKind::UnexpectedEof, "EOF")));
}
