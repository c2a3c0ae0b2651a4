use rm_query::decimal::{decimal_chars, parse_number};
use rm_query::query_language::operation::Operation;
use rm_query::query_language::grammar::{
    find_close, find_comma, list_separator_chars, opens_with, pair_separator_chars, read_pair,
    read_single, strip,
};
use rm_query::sorting::{
    key_precedes, list_precedes, must_precede, same_chars, text_precedes, SortKey,
};
use rm_query::stable_order::stable_order_of;
use rm_query::text::{
    chars_of, contains, extend_chars, extend_str, find_from, join, matches_at, remove_two_chars,
    slice_chars, split, string_of,
};

fn c(s: &str) -> Vec<char> {
    s.chars().collect()
}

fn s(v: &Vec<char>) -> String {
    v.iter().collect()
}

#[test]
fn strings_and_characters() {
    assert_eq!(chars_of("a\u{e9}z"), vec!['a', '\u{e9}', 'z']);
    assert_eq!(chars_of(""), Vec::<char>::new());
    assert_eq!(string_of(&vec!['R', 'i', 'c', 'k']), "Rick");
    assert_eq!(string_of(&vec![]), "");
    let mut v = c("ab");
    extend_chars(&mut v, &c("cd"));
    extend_str(&mut v, "ef");
    assert_eq!(s(&v), "abcdef");
    assert_eq!(s(&slice_chars(&c("abcdef"), 2, 4)), "cd");
    assert_eq!(s(&slice_chars(&c("abcdef"), 6, 6)), "");
}

#[test]
fn searching() {
    let text = c("Rick Sanchez");
    assert!(matches_at(&text, &c("Rick"), 0));
    assert!(!matches_at(&text, &c("Rick"), 1));
    assert!(matches_at(&text, &c(""), 12));
    assert!(!matches_at(&text, &c(""), 13));
    assert!(!matches_at(&text, &c("chez!"), 8));
    assert_eq!(find_from(&text, &c("c"), 0), Some(2));
    assert_eq!(find_from(&text, &c("c"), 3), Some(8));
    assert_eq!(find_from(&text, &c("c"), 9), None);
    assert_eq!(find_from(&text, &c("z"), 11), Some(11));
    assert_eq!(find_from(&text, &c(""), 12), Some(12));
    assert_eq!(find_from(&text, &c(""), 13), None);
    assert!(contains(&text, &c("k S")));
    assert!(contains(&text, &c("")));
    assert!(contains(&c(""), &c("")));
    assert!(!contains(&c(""), &c("a")));
    assert!(!contains(&text, &c("rick")));
    assert!(!contains(&text, &c("Rick Sanchez ")));
    assert!(contains(&c("aab"), &c("ab")));
}

fn pieces(text: &str, separator: &str) -> Vec<String> {
    split(&c(text), &c(separator)).iter().map(s).collect()
}

#[test]
fn splitting_and_joining() {
    assert_eq!(pieces("a::b::c", "::"), vec!["a", "b", "c"]);
    assert_eq!(pieces("abc", "::"), vec!["abc"]);
    assert_eq!(pieces("", "::"), vec![""]);
    assert_eq!(pieces("a::::b", "::"), vec!["a", "", "b"]);
    assert_eq!(pieces(":::", "::"), vec!["", ":"]);
    assert_eq!(pieces("::a::", "::"), vec!["", "a", ""]);
    assert_eq!(pieces("abc", ""), vec!["abc"]);
    assert_eq!(s(&join(&vec![c("a"), c("b"), c("c")], &c("::"))), "a::b::c");
    assert_eq!(s(&join(&vec![c("a")], &c("::"))), "a");
    assert_eq!(s(&join(&vec![], &c("::"))), "");
    assert_eq!(s(&join(&vec![c(""), c("")], &c("&"))), "&");
    assert_eq!(s(&list_separator_chars()), "::");
    assert_eq!(s(&pair_separator_chars()), ", ");
}

#[test]
fn removing() {
    assert_eq!(s(&remove_two_chars(&c("f(a)(b))("), '(', ')')), "fab");
    assert_eq!(s(&remove_two_chars(&c(""), '(', ')')), "");
    assert_eq!(s(&strip(&c("PAGE(12)"), &c("PAGE"))), "12");
    assert_eq!(s(&strip(&c("PAGE(PAGE12)"), &c("PAGE"))), "PAGE12");
    assert_eq!(s(&strip(&c("PA(GE12)"), &c("PAGE"))), "PAGE12");
    assert_eq!(s(&strip(&c("(PAGE)"), &c("PAGE"))), "PAGE");
    assert_eq!(s(&strip(&c("PAGE"), &c("PAGE"))), "");
    assert_eq!(s(&strip(&c("PAG"), &c("PAGE"))), "PAG");
    assert_eq!(s(&strip(&c("(a)"), &c(""))), "a");
}

#[test]
fn tokens() {
    let token = c("SORT(ASC, name) rest)");
    assert!(opens_with(&token, &c("SORT")));
    assert!(!opens_with(&token, &c("SOR")));
    assert!(!opens_with(&c("SORT"), &c("SORT")));
    assert_eq!(find_close(&token, 5), Some(14));
    assert_eq!(find_close(&token, 15), Some(20));
    assert_eq!(find_close(&token, 21), None);
    assert_eq!(find_close(&c("ab\n)"), 0), None);
    assert_eq!(find_comma(&token, 5), Some(8));
    assert_eq!(find_comma(&token, 9), None);
    assert_eq!(find_comma(&c("a\n, b"), 0), None);
    assert_eq!(read_single(&c("NAME(Rick)"), &c("NAME")).map(|a| s(&a)), Some("Rick".to_string()));
    assert_eq!(read_single(&c("NAME()"), &c("NAME")).map(|a| s(&a)), Some("".to_string()));
    assert_eq!(read_single(&c("NAME(a)b)"), &c("NAME")).map(|a| s(&a)), Some("a".to_string()));
    assert_eq!(read_single(&c("NAMES(a)"), &c("NAME")), None);
    assert_eq!(
        read_pair(&token, &c("SORT")).map(|(a, b)| (s(&a), s(&b))),
        Some(("ASC".to_string(), "name".to_string()))
    );
    assert_eq!(
        read_pair(&c("CONTAINS(a), b)"), &c("CONTAINS")).map(|(a, b)| (s(&a), s(&b))),
        Some(("a".to_string(), "b".to_string()))
    );
    assert_eq!(
        read_pair(&c("CONTAINS(, )"), &c("CONTAINS")).map(|(a, b)| (s(&a), s(&b))),
        Some(("".to_string(), "".to_string()))
    );
    assert_eq!(read_pair(&c("CONTAINS(a) , b"), &c("CONTAINS")), None);
    assert_eq!(read_pair(&c("CONTAINS(a, b"), &c("CONTAINS")), None);
}

#[test]
fn decimal_numbers() {
    assert_eq!(s(&decimal_chars(0)), "0");
    assert_eq!(s(&decimal_chars(7)), "7");
    assert_eq!(s(&decimal_chars(10)), "10");
    assert_eq!(s(&decimal_chars(1024)), "1024");
    assert_eq!(s(&decimal_chars(4294967295)), "4294967295");
    assert_eq!(parse_number(&c("0")), Some(0));
    assert_eq!(parse_number(&c("1024")), Some(1024));
    assert_eq!(parse_number(&c("+1024")), Some(1024));
    assert_eq!(parse_number(&c("0001024")), Some(1024));
    assert_eq!(parse_number(&c("4294967295")), Some(4294967295));
    assert_eq!(parse_number(&c("00000000004294967295")), Some(4294967295));
    assert_eq!(parse_number(&c("4294967296")), None);
    assert_eq!(parse_number(&c("99999999999999999999999999")), None);
    assert_eq!(parse_number(&c("")), None);
    assert_eq!(parse_number(&c("+")), None);
    assert_eq!(parse_number(&c("-1")), None);
    assert_eq!(parse_number(&c("++1")), None);
    assert_eq!(parse_number(&c("1+")), None);
    assert_eq!(parse_number(&c("12a")), None);
    assert_eq!(parse_number(&c(" 12")), None);
    assert_eq!(parse_number(&c("1.0")), None);
    assert_eq!(parse_number(&c("\u{663}")), None);
    for n in [0u32, 9, 10, 99, 100, 65535, 4294967295] {
        assert_eq!(parse_number(&decimal_chars(n)), Some(n));
        assert_eq!(s(&decimal_chars(n)), n.to_string());
    }
}

#[test]
fn order_of_texts_and_keys() {
    assert!(same_chars(&c("abc"), &c("abc")));
    assert!(!same_chars(&c("abc"), &c("abd")));
    assert!(!same_chars(&c("abc"), &c("ab")));
    assert!(text_precedes(&c(""), &c("a")));
    assert!(!text_precedes(&c(""), &c("")));
    assert!(!text_precedes(&c("a"), &c("")));
    assert!(text_precedes(&c("a"), &c("ab")));
    assert!(text_precedes(&c("ab"), &c("b")));
    assert!(text_precedes(&c("B"), &c("a")));
    assert!(!text_precedes(&c("abc"), &c("abc")));
    assert!(text_precedes(&c("z"), &c("\u{e9}")));
    for (a, b) in [("", "a"), ("a", "a"), ("b", "a"), ("Morty", "Rick"), ("z", "\u{fc}")] {
        assert_eq!(text_precedes(&c(a), &c(b)), a < b);
    }
    assert!(list_precedes(&vec![], &vec![c("")]));
    assert!(list_precedes(&vec![c("a")], &vec![c("a"), c("")]));
    assert!(list_precedes(&vec![c("a"), c("z")], &vec![c("b")]));
    assert!(!list_precedes(&vec![c("a"), c("z")], &vec![c("a"), c("z")]));
    assert!(!list_precedes(&vec![c("b")], &vec![c("a"), c("z")]));
    assert!(key_precedes(&SortKey::Number(1), &SortKey::Number(2)));
    assert!(!key_precedes(&SortKey::Number(2), &SortKey::Number(2)));
    assert!(key_precedes(&SortKey::Instant(-1, 5), &SortKey::Instant(0, 0)));
    assert!(key_precedes(&SortKey::Instant(3, 5), &SortKey::Instant(3, 6)));
    assert!(!key_precedes(&SortKey::Instant(3, 6), &SortKey::Instant(3, 6)));
    assert!(!key_precedes(&SortKey::Nothing, &SortKey::Nothing));
    assert!(key_precedes(&SortKey::Nothing, &SortKey::Number(0)));
    assert!(key_precedes(&SortKey::Number(9), &SortKey::Text(c(""))));
    assert!(key_precedes(&SortKey::Text(c("z")), &SortKey::TextList(vec![])));
    assert!(key_precedes(&SortKey::TextList(vec![c("z")]), &SortKey::Instant(0, 0)));
    assert!(!key_precedes(&SortKey::Instant(0, 0), &SortKey::Text(c("z"))));
    assert!(must_precede(&SortKey::Number(1), &SortKey::Number(2), false));
    assert!(!must_precede(&SortKey::Number(1), &SortKey::Number(2), true));
    assert!(must_precede(&SortKey::Number(2), &SortKey::Number(1), true));
    assert!(!must_precede(&SortKey::Number(2), &SortKey::Number(2), true));
}

fn numbers(keys: &[u32]) -> Vec<SortKey> {
    keys.iter().map(|n| SortKey::Number(*n)).collect()
}

#[test]
fn stable_orders() {
    assert_eq!(stable_order_of(&numbers(&[]), false), Vec::<usize>::new());
    assert_eq!(stable_order_of(&numbers(&[5]), true), vec![0]);
    assert_eq!(stable_order_of(&numbers(&[3, 1, 2]), false), vec![1, 2, 0]);
    assert_eq!(stable_order_of(&numbers(&[3, 1, 2]), true), vec![0, 2, 1]);
    assert_eq!(stable_order_of(&numbers(&[2, 1, 2, 1, 2]), false), vec![1, 3, 0, 2, 4]);
    assert_eq!(stable_order_of(&numbers(&[2, 1, 2, 1, 2]), true), vec![0, 2, 4, 1, 3]);
    assert_eq!(stable_order_of(&numbers(&[7, 7, 7]), false), vec![0, 1, 2]);
    assert_eq!(stable_order_of(&numbers(&[7, 7, 7]), true), vec![0, 1, 2]);
    let keys = numbers(&[9, 4, 4, 0, 9, 1, 4, 0]);
    let order = stable_order_of(&keys, false);
    let mut expected: Vec<usize> = (0..8).collect();
    expected.sort_by_key(|i| [9, 4, 4, 0, 9, 1, 4, 0][*i]);
    assert_eq!(order, expected);
    let order = stable_order_of(&keys, true);
    let mut expected: Vec<usize> = (0..8).collect();
    expected.sort_by(|i, j| [9, 4, 4, 0, 9, 1, 4, 0][*j].cmp(&[9, 4, 4, 0, 9, 1, 4, 0][*i]));
    assert_eq!(order, expected);
}

#[test]
fn symbols_are_the_leading_name_and_the_parentheses() {
    for name in ["NAME", "PAGE", "CONTAINS", "AA", "ABA"] {
        for text in [
            "",
            "NAME(Rick)",
            "NAME(NAME)",
            "NANAMEME",
            "N(A)ME",
            "PAGE(1)PAGE(2)",
            "CONTAINS(a, b)",
            "AAA",
            "AAAA",
            "ABABA",
            "ABAABA",
            "(((",
            "x)y(z",
            "\u{e9}(NAME)\u{e9}",
        ] {
            let expected = text
                .strip_prefix(name)
                .unwrap_or(text)
                .replace("(", "")
                .replace(")", "");
            assert_eq!(Operation::remove_symbols(text, name), expected);
        }
    }
}
