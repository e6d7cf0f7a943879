use codex_shell::sorting::{distinct_text_order, stable_text_order};
use codex_shell::text::{
    concat2, decimal_text, join_chars, lower_str, replace_char_chars, split_lines, str_contains, str_equal,
    strip_char_chars, text_less, trim_str,
};

fn chars(s: &str) -> Vec<char> {
    s.chars().collect()
}

fn text(v: &[char]) -> String {
    v.iter().collect()
}

#[test]
fn trim_and_lower_follow_str() {
    for s in ["", "  a b  ", "\t\u{3000}全角\u{3000}\n", "x", " \r\n "] {
        assert_eq!(trim_str(s), s.trim());
        assert_eq!(lower_str(s), s.to_ascii_lowercase());
        assert_eq!(trim_str(&trim_str(s)), trim_str(s));
    }
    assert_eq!(lower_str("ÄBC-Def"), "Äbc-def");
}

#[test]
fn decimal_text_matches_to_string() {
    for n in [0u64, 7, 10, 99, 100, 1234567890, u64::MAX] {
        assert_eq!(decimal_text(n), n.to_string());
    }
}

#[test]
fn split_lines_matches_str_lines() {
    for s in ["", "a", "a\n", "a\r\nb", "\n\nx\r\n", "one\ntwo\nthree"] {
        let got: Vec<String> = split_lines(&chars(s)).iter().map(|l| text(l)).collect();
        let want: Vec<String> = s.lines().map(|l| l.to_string()).collect();
        assert_eq!(got, want, "input {s:?}");
    }
}

#[test]
fn join_and_concat() {
    let parts = vec![chars("a"), chars("bc"), chars("")];
    assert_eq!(text(&join_chars(&parts, &chars(" / "))), "a / bc / ");
    assert_eq!(concat2("ab", "cd"), "abcd");
}

#[test]
fn replace_and_strip() {
    assert_eq!(text(&replace_char_chars(&chars("C:/a/b"), '/', '\\')), "C:\\a\\b");
    let quote = '"';
    assert_eq!(text(&strip_char_chars(&chars("\"\"x\"y\""), quote)), "x\"y");
    assert_eq!(text(&strip_char_chars(&chars("\"\""), quote)), "");
}

#[test]
fn equality_and_containment() {
    assert!(str_equal("abc", "abc"));
    assert!(!str_equal("abc", "abd"));
    assert!(str_contains("tokens used: 12", "tokens used"));
    assert!(!str_contains("token", "tokens"));
    assert!(str_contains("x", ""));
}

#[test]
fn text_order_is_string_order() {
    let words = ["", "a", "ab", "b", "B", "あ", "ア", "a\u{10000}", "aa"];
    for x in words {
        for y in words {
            assert_eq!(text_less(&chars(x), &chars(y)), x < y, "{x:?} < {y:?}");
        }
    }
}

#[test]
fn stable_order_keeps_equal_keys_in_place() {
    let keys = vec![chars("b"), chars("a"), chars("b"), chars("a"), chars("c")];
    assert_eq!(stable_text_order(&keys), vec![1, 3, 0, 2, 4]);
    assert_eq!(stable_text_order(&vec![]), Vec::<usize>::new());
}

#[test]
fn distinct_order_keeps_first_of_each_key() {
    let keys = vec![chars("b"), chars("a"), chars("b"), chars("a"), chars("c")];
    assert_eq!(distinct_text_order(&keys), vec![1, 0, 4]);
}
