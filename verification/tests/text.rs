use kiro_gateway::text::blank;
use kiro_gateway::text::chars_of;
use kiro_gateway::text::constant_time_eq;
use kiro_gateway::text::contains;
use kiro_gateway::text::decimal_string;
use kiro_gateway::text::find_from;
use kiro_gateway::text::replaced;
use kiro_gateway::text::replaced_first;
use kiro_gateway::text::signed_decimal_string;
use kiro_gateway::text::split_lines;
use kiro_gateway::text::starts_with;
use kiro_gateway::text::string_of;
use kiro_gateway::text::trimmed;
use kiro_gateway::text::without_first;

fn chars(s: &str) -> Vec<char> {
    s.chars().collect()
}

fn lines_of(s: &str) -> Vec<String> {
    split_lines(&chars(s)).iter().map(|l| l.iter().collect()).collect()
}

#[test]
fn chars_and_strings_round_trip() {
    let text = "héllo, 世界!";
    let v = chars_of(text);
    assert_eq!(v, chars(text));
    assert_eq!(string_of(&v), text);
    assert_eq!(string_of(&Vec::new()), "");
}

#[test]
fn constant_time_eq_compares_whole_strings() {
    assert!(constant_time_eq("", ""));
    assert!(constant_time_eq("sk-secret", "sk-secret"));
    assert!(!constant_time_eq("sk-secret", "sk-secreT"));
    assert!(!constant_time_eq("sk-secret", "Sk-secret"));
    assert!(!constant_time_eq("sk-secret", "sk-secre"));
    assert!(!constant_time_eq("sk-secret", "sk-secret "));
    assert!(constant_time_eq("clé", "clé"));
    assert!(!constant_time_eq("clé", "cle"));
}

#[test]
fn trimmed_agrees_with_the_standard_trim() {
    let samples = [
        "",
        " ",
        "abc",
        "  abc  ",
        "\t\n abc \r\n",
        "a b",
        " a b ",
        "\u{a0}abc\u{3000}",
        "\u{2003}x\u{2028}",
        "\u{200b}x\u{200b}",
        "\u{85}\u{1680}y\u{202f}\u{205f}",
        "\u{b}\u{c}z",
    ];
    for s in samples {
        assert_eq!(trimmed(s), s.trim(), "trimming {:?}", s);
        assert_eq!(blank(s), s.trim().is_empty(), "blankness of {:?}", s);
    }
}

#[test]
fn decimal_strings_agree_with_the_standard_form() {
    for n in [0u64, 1, 9, 10, 11, 99, 100, 12345, 1_000_000, u64::MAX] {
        assert_eq!(decimal_string(n), n.to_string());
    }
    for n in [0i64, 1, -1, 10, -10, 1_771_152_031, i64::MAX, i64::MIN, i64::MIN + 1] {
        assert_eq!(signed_decimal_string(n), n.to_string());
    }
}

#[test]
fn searching_finds_the_first_match() {
    let hay = chars("abcabcabc");
    assert_eq!(find_from(&hay, &chars("abc"), 0), Some(0));
    assert_eq!(find_from(&hay, &chars("abc"), 1), Some(3));
    assert_eq!(find_from(&hay, &chars("cab"), 0), Some(2));
    assert_eq!(find_from(&hay, &chars("abc"), 7), None);
    assert_eq!(find_from(&hay, &chars("abd"), 0), None);
    assert_eq!(find_from(&hay, &chars(""), 9), Some(9));
    assert_eq!(find_from(&hay, &chars(""), 10), None);
    assert_eq!(find_from(&hay, &chars("abcabcabca"), 0), None);
    assert!(contains(&hay, &chars("bca")));
    assert!(!contains(&hay, &chars("bcb")));
    assert!(contains(&chars(""), &chars("")));
    assert!(starts_with("Bearer x", "Bearer "));
    assert!(!starts_with("bearer x", "Bearer "));
    assert!(!starts_with("Bear", "Bearer "));
}

#[test]
fn replacing_agrees_with_the_standard_replace() {
    let samples = [
        ("", "a", "b"),
        ("aaa", "a", "b"),
        ("aaa", "aa", "b"),
        ("abcabc", "bc", ""),
        ("http://host/http://", "http://", "ws://"),
        ("xZ yZ\u{1b}z", "Z ", "+08:00 "),
        ("no match", "zz", "y"),
        ("abab", "ab", "abab"),
    ];
    for (s, from, to) in samples {
        assert_eq!(replaced(s, from, to), s.replace(from, to));
        let first: String = replaced_first(&chars(s), &chars(from), &chars(to)).iter().collect();
        assert_eq!(first, s.replacen(from, to, 1));
    }
}

#[test]
fn lines_agree_with_the_standard_lines() {
    let samples = [
        "",
        "\n",
        "a",
        "a\n",
        "a\nb",
        "a\r\nb\r\n",
        "a\rb\n",
        "a\r",
        "\r\n",
        "\n\n",
        "a\n\nb",
        "last\r",
        "x\r\r\ny",
    ];
    for s in samples {
        let want: Vec<String> = s.lines().map(|l| l.to_string()).collect();
        assert_eq!(lines_of(s), want, "lines of {:?}", s);
    }
}

#[test]
fn without_first_drops_characters() {
    assert_eq!(without_first("42[1]", 2), "[1]");
    assert_eq!(without_first("42", 2), "");
    assert_eq!(without_first("4", 2), "");
    assert_eq!(without_first("éa", 1), "a");
}
