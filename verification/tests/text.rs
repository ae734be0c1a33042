use mqtt_relay::text::{is_whitespace_char, same_text, words};

#[test]
fn whitespace_is_what_the_standard_library_calls_whitespace() {
    for c in '\0'..=char::MAX {
        assert_eq!(is_whitespace_char(c), c.is_whitespace(), "at {:?}", c);
    }
}

#[test]
fn words_of_an_empty_line() {
    assert!(words("").is_empty());
    assert!(words("   \t\r\n").is_empty());
}

#[test]
fn words_are_split_on_runs_of_whitespace() {
    assert_eq!(words("PUBLISH news hello 0"), vec!["PUBLISH", "news", "hello", "0"]);
    assert_eq!(words("  a \t b\n\nc  "), vec!["a", "b", "c"]);
    assert_eq!(words("single"), vec!["single"]);
}

#[test]
fn words_are_split_on_whitespace_beyond_ascii() {
    assert_eq!(words("a\u{a0}b\u{2003}c\u{3000}d\u{85}e"), vec!["a", "b", "c", "d", "e"]);
    assert_eq!(words("caf\u{e9} \u{4e16}\u{754c}"), vec!["caf\u{e9}", "\u{4e16}\u{754c}"]);
}

#[test]
fn words_agree_with_the_standard_library() {
    let samples = [
        "",
        " ",
        "SUBSCRIBE news 1",
        "\tPUBLISH  sports\u{2028}goal!  2\r\n",
        "\u{1680}x\u{202f}y\u{205f}z\u{200a}",
        "no-space",
        "\u{feff}bom is no space",
    ];
    for sample in samples {
        let expected: Vec<String> = sample.split_whitespace().map(String::from).collect();
        assert_eq!(words(sample), expected, "for {:?}", sample);
    }
}

#[test]
fn same_text_compares_characters() {
    assert!(same_text("news", "news"));
    assert!(same_text("", ""));
    assert!(!same_text("news", "News"));
    assert!(!same_text("news", "new"));
}
