use procc_ll::dispatch::call_strategy;
use procc_ll::pattern::call_shaped;
use procc_ll::text::{
    find_first, find_last, first_word, is_whitespace, key_content, name_of_reference, normalize,
    remove_newlines, run_end, split, split_call, starts_reference, trailing_space_start, trim,
};
use procc_ll::Strategy;

#[test]
fn whitespace_is_what_std_calls_whitespace() {
    let mut n: u32 = 0;
    while n <= 0x10FFFF {
        if let Some(c) = char::from_u32(n) {
            assert_eq!(is_whitespace(c), c.is_whitespace(), "U+{:04X}", n);
        }
        n += 1;
    }
}

#[test]
fn whitespace_examples() {
    assert!(is_whitespace(' '));
    assert!(is_whitespace('\n'));
    assert!(is_whitespace('\t'));
    assert!(is_whitespace('\r'));
    assert!(is_whitespace('\u{A0}'));
    assert!(is_whitespace('\u{3000}'));
    assert!(!is_whitespace('a'));
    assert!(!is_whitespace('$'));
    assert!(!is_whitespace('\u{200B}'));
}

#[test]
fn trim_agrees_with_std() {
    for s in ["", " ", "a", "  a b  ", "\n\t x \r\n", "\u{3000}é\u{A0}", "   ", "a   ", "   a"] {
        assert_eq!(trim(s), s.trim(), "{:?}", s);
    }
}

#[test]
fn scans_count_characters() {
    assert_eq!(run_end("  ab ", 0, true), 2);
    assert_eq!(run_end("  ab ", 2, false), 4);
    assert_eq!(run_end("  ab ", 2, true), 2);
    assert_eq!(run_end("é\u{A0}x", 0, false), 1);
    assert_eq!(run_end("é\u{A0}x", 1, true), 2);
    assert_eq!(run_end("ab", 2, true), 2);
    assert_eq!(run_end("ab", 5, true), 5);
    assert_eq!(find_first("ab", 7, '('), 7);
    assert_eq!(trailing_space_start("ab  "), 2);
    assert_eq!(trailing_space_start("   "), 0);
    assert_eq!(trailing_space_start(""), 0);
    assert_eq!(find_first("a(b(c", 0, '('), 1);
    assert_eq!(find_first("a(b(c", 2, '('), 3);
    assert_eq!(find_first("abc", 0, '('), 3);
    assert_eq!(find_first("é(", 0, '('), 1);
    assert_eq!(find_last("a)b)c", ')'), Some(3));
    assert_eq!(find_last("abc", ')'), None);
    assert_eq!(find_last("", ')'), None);
}

#[test]
fn newlines_are_removed() {
    assert_eq!(remove_newlines("a\nb\n\nc"), "abc");
    assert_eq!(remove_newlines("\n"), "");
    assert_eq!(remove_newlines("a\r\nb"), "a\rb");
    assert_eq!(remove_newlines("é\nü"), "éü");
}

#[test]
fn normalize_trims_then_removes_newlines() {
    assert_eq!(normalize("  log \n \"x\"  \n"), "log  \"x\"");
    assert_eq!(normalize("a\nb"), "ab");
    assert_eq!(normalize(" \n "), "");
    assert_eq!(normalize("plain"), "plain");
}

#[test]
fn first_word_and_content() {
    assert_eq!(first_word("log  \"hello world\""), "log");
    assert_eq!(key_content("log  \"hello world\""), "\"hello world\"");
    assert_eq!(first_word("log"), "log");
    assert_eq!(key_content("log"), "");
    assert_eq!(first_word(""), "");
    assert_eq!(key_content(""), "");
    assert_eq!(first_word(" x"), "");
    assert_eq!(key_content("let log = log"), "log = log");
    assert_eq!(key_content("a\tb c "), "b c ");
}

#[test]
fn references() {
    assert!(starts_reference("$x"));
    assert!(starts_reference("$"));
    assert!(!starts_reference("x$"));
    assert!(!starts_reference(""));
    assert_eq!(name_of_reference("$x"), "x");
    assert_eq!(name_of_reference("$  x y "), "x y");
    assert_eq!(name_of_reference("$"), "");
    assert_eq!(name_of_reference(""), "");
    assert_eq!(name_of_reference("$a$b"), "a$b");
}

#[test]
fn call_is_split_at_first_opening_and_last_closing_bracket() {
    assert_eq!(split_call("echo(\"hello world\")"), Some(("echo", "\"hello world\"")));
    assert_eq!(split_call("f(g(x))"), Some(("f", "g(x)")));
    assert_eq!(split_call("f(a) b) c"), Some(("f", "a) b")));
    assert_eq!(split_call("f()"), Some(("f", "")));
    assert_eq!(split_call("(x)"), Some(("", "x")));
    assert_eq!(split_call("f)x("), None);
    assert_eq!(split_call("f(x"), None);
    assert_eq!(split_call("fx)"), None);
    assert_eq!(split_call("plain"), None);
    assert_eq!(split_call(""), None);
}

#[test]
fn split_keeps_empty_pieces() {
    assert_eq!(split("a,b,c", ','), vec!["a", "b", "c"]);
    assert_eq!(split("a, b", ','), vec!["a", " b"]);
    assert_eq!(split("", ','), vec![""]);
    assert_eq!(split(",", ','), vec!["", ""]);
    assert_eq!(split("a,,b,", ','), vec!["a", "", "b", ""]);
    assert_eq!(split("no comma", ','), vec!["no comma"]);
    for s in ["a,b", "", ",", ",,x,", "é,ü"] {
        let expected: Vec<String> = s.split(',').map(|p| p.to_string()).collect();
        assert_eq!(split(s, ','), expected);
    }
}

#[test]
fn call_pattern_is_searched() {
    assert_eq!(call_shaped("echo(\"hello world\")"), Some(true));
    assert_eq!(call_shaped("not(found)"), Some(true));
    assert_eq!(call_shaped("f(g(x))"), Some(true));
    assert_eq!(call_shaped("not_found"), Some(false));
    assert_eq!(call_shaped("f()"), Some(false));
    assert_eq!(call_shaped("(x)"), Some(false));
    assert_eq!(call_shaped(""), Some(false));
    assert_eq!(call_shaped("f)x("), Some(false));
}

#[test]
fn strategy_after_the_search() {
    assert_eq!(call_strategy("abc", None), Strategy::Unknown);
    assert_eq!(call_strategy("abc", Some(false)), Strategy::Token);
    assert_eq!(call_strategy("f(a,b)", Some(false)), Strategy::Token);
    assert_eq!(call_strategy("abc", Some(true)), Strategy::Malformed);
    assert_eq!(call_strategy("f)x(", Some(true)), Strategy::Malformed);
    assert_eq!(
        call_strategy("f(a, b)", Some(true)),
        Strategy::Call { name: "f".to_string(), args: vec!["a".to_string(), " b".to_string()] }
    );
}
