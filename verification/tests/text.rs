use wan_switch::text::{any_line_holds, blank, chars_of, holds_in, line_holds, line_spans, same_text};

fn lines_by_spans(text: &str) -> Vec<String> {
    let chars = chars_of(text);
    line_spans(&chars)
        .iter()
        .map(|(from, to)| chars[*from..*to].iter().collect::<String>())
        .collect()
}

fn lines_by_std(text: &str) -> Vec<String> {
    text.lines().map(|line| line.to_string()).collect()
}

#[test]
fn chars_are_handed_out_in_order() {
    assert_eq!(chars_of("ab\u{e9}\n"), vec!['a', 'b', '\u{e9}', '\n']);
    assert_eq!(chars_of(""), Vec::<char>::new());
}

#[test]
fn empty_text_has_no_line() {
    assert_eq!(lines_by_spans(""), Vec::<String>::new());
}

#[test]
fn final_terminator_opens_no_line() {
    assert_eq!(lines_by_spans("a\nb\n"), vec!["a".to_string(), "b".to_string()]);
    assert_eq!(lines_by_spans("a\nb"), vec!["a".to_string(), "b".to_string()]);
}

#[test]
fn empty_lines_are_kept() {
    assert_eq!(lines_by_spans("\n"), vec!["".to_string()]);
    assert_eq!(lines_by_spans("a\n\nb"), vec!["a".to_string(), "".to_string(), "b".to_string()]);
}

#[test]
fn carriage_return_before_line_feed_is_dropped() {
    assert_eq!(lines_by_spans("a\r\nb\r\n"), vec!["a".to_string(), "b".to_string()]);
    assert_eq!(lines_by_spans("\r\n"), vec!["".to_string()]);
}

#[test]
fn bare_carriage_return_stays() {
    assert_eq!(lines_by_spans("a\rb\n"), vec!["a\rb".to_string()]);
    assert_eq!(lines_by_spans("a\r"), vec!["a\r".to_string()]);
    assert_eq!(lines_by_spans("a\r\r\n"), vec!["a\r".to_string()]);
}

#[test]
fn lines_agree_with_the_standard_library() {
    let samples = [
        "",
        "\n",
        "\r",
        "\r\n",
        "\n\n",
        "one",
        "one\n",
        "one\r\n",
        "one\ntwo",
        "one\r\ntwo\r",
        "one\n\ntwo\n\n",
        "default via 192.168.1.1 dev eth0 \ndefault via 10.0.0.1 dev eth1 metric 100\n",
        "\u{e9}t\u{e9}\r\n\u{4e2d}\n",
    ];
    for sample in samples {
        assert_eq!(lines_by_spans(sample), lines_by_std(sample));
    }
}

fn holds_by_std(hay: &str, words: &str) -> bool {
    let white = |c: char| c == ' ' || c == '\t' || c == '\r' || c == '\n';
    let hay_chars: Vec<char> = hay.chars().collect();
    let word_chars: Vec<char> = words.chars().collect();
    if word_chars.len() > hay_chars.len() {
        return false;
    }
    (0..=hay_chars.len() - word_chars.len()).any(|at| {
        let end = at + word_chars.len();
        hay_chars[at..end] == word_chars[..]
            && (at == 0 || white(hay_chars[at - 1]))
            && (end == hay_chars.len() || white(hay_chars[end]))
    })
}

#[test]
fn white_space_is_blank_tab_and_line_ends() {
    assert!(blank(' '));
    assert!(blank('\t'));
    assert!(blank('\r'));
    assert!(blank('\n'));
    assert!(!blank('a'));
    assert!(!blank('0'));
    assert!(!blank(':'));
    assert!(!blank('\u{a0}'));
}

#[test]
fn words_must_end_where_they_end() {
    assert!(line_holds("default via 10.0.0.1 dev eth1 metric 100", "dev eth1"));
    assert!(line_holds("default via 10.0.0.1 dev eth1", "dev eth1"));
    assert!(line_holds("dev eth1 via 10.0.0.1", "dev eth1"));
    assert!(line_holds("dev eth1", "dev eth1"));
    assert!(line_holds("via 10.0.0.1\tdev eth1\tmetric 100", "dev eth1"));
    assert!(!line_holds("default via 10.0.0.9 dev eth10 metric 50", "dev eth1"));
    assert!(!line_holds("default via 10.0.0.9 dev eth1.5", "dev eth1"));
    assert!(!line_holds("default via 10.0.0.9 xdev eth1", "dev eth1"));
    assert!(!line_holds("default via 10.0.0.9 dev  eth1", "dev eth1"));
    assert!(!line_holds("", "dev eth1"));
    assert!(!line_holds("dev eth", "dev eth1"));
}

#[test]
fn later_place_counts_when_an_earlier_one_does_not() {
    assert!(line_holds("dev eth10 dev eth1", "dev eth1"));
    assert!(line_holds("aa a", "a"));
    assert!(!line_holds("aa aa", "a"));
    assert!(!line_holds("ab", ""));
    assert!(line_holds(" ab", ""));
    assert!(line_holds("", ""));
}

#[test]
fn word_search_agrees_with_a_plain_scan() {
    let hays = ["", "a", "a b", "ab", "aaab", "from 10.40.0.5/32 lookup 200", "from 10.40.0.5/32 lookup 2000", "x\tlookup 200\r", "ab \u{e9}c d"];
    let words = ["", "a", "b", "ab", "a b", "lookup 200", "lookup 2000", "10.40.0.5/32 lookup 200", "\u{e9}c"];
    for hay in hays {
        for word in words {
            assert_eq!(line_holds(hay, word), holds_by_std(hay, word));
        }
    }
}

#[test]
fn search_stays_inside_the_part() {
    let hay = chars_of("xxabcxx");
    let words = chars_of("abc");
    assert!(holds_in(&hay, 2, 5, &words));
    assert!(!holds_in(&hay, 0, 7, &words));
    assert!(!holds_in(&hay, 1, 5, &words));
    assert!(!holds_in(&hay, 2, 6, &words));
    assert!(!holds_in(&hay, 3, 7, &words));
    assert!(holds_in(&hay, 3, 3, &chars_of("")));
    let spaced = chars_of("x abc x");
    assert!(holds_in(&spaced, 0, 7, &words));
    assert!(holds_in(&spaced, 2, 7, &words));
    assert!(!holds_in(&spaced, 0, 4, &words));
}

#[test]
fn words_must_lie_within_one_line() {
    assert!(any_line_holds("one\ntwo three\n", "two three"));
    assert!(!any_line_holds("one\ntwo\nthree\n", "two\nthree"));
    assert!(!any_line_holds("one two\n", "two three"));
    assert!(!any_line_holds("one twothree\n", "two"));
    assert!(any_line_holds("one two\r\nthree", "two"));
    assert!(!any_line_holds("", ""));
    assert!(any_line_holds("\n", ""));
}

#[test]
fn texts_are_compared_whole() {
    assert!(same_text("wan0", "wan0"));
    assert!(!same_text("wan0", "wan1"));
    assert!(!same_text("wan0", "wan0 "));
    assert!(same_text("", ""));
}
