use rustpress::seqs::{
    distinct_texts, flatten_texts, has_text, insert_ascending, prefix_of, same_texts,
    starts_with_texts,
};
use rustpress::text::{
    chars_of, compare_text, decimal, escape_xml, first_chars, is_space, join, space_tags,
    string_of, text_eq, trim, trim_end_slashes, Order,
};
use rustpress::utils::strip_html_tags;

fn list(items: &[&str]) -> Vec<String> {
    items.iter().map(|s| s.to_string()).collect()
}

#[test]
fn tags_are_taken_out_of_html() {
    assert_eq!(strip_html_tags("<p>Hello <b>World</b></p>"), "Hello World");
    assert_eq!(strip_html_tags("  a \n\t b  "), "a b");
    assert_eq!(strip_html_tags("a<br>b"), "ab");
    assert_eq!(strip_html_tags("1 > 0 and <i>x</i>"), "1 0 and x");
    assert_eq!(strip_html_tags("open <tag never closed"), "open");
    assert_eq!(strip_html_tags("<a <b> c> d"), "c d");
    assert_eq!(strip_html_tags(""), "");
    assert_eq!(strip_html_tags("<p></p>"), "");
    assert_eq!(strip_html_tags("日本\u{3000}語"), "日本 語");
}

#[test]
fn white_space_is_what_the_standard_library_calls_so() {
    let mut code = 0u32;
    while code <= 0x10FFFF {
        if let Some(c) = char::from_u32(code) {
            assert_eq!(is_space(c), c.is_whitespace(), "U+{:04X}", code);
        }
        code += 1;
    }
}

#[test]
fn stripping_agrees_with_splitting_at_white_space() {
    for text in ["a b", " a  b ", "\u{a0}x\u{2003}y\n", "", "   ", "one"] {
        let expected = text.split_whitespace().collect::<Vec<&str>>().join(" ");
        assert_eq!(strip_html_tags(text), expected);
    }
}

#[test]
fn numbers_are_written_in_decimal() {
    assert_eq!(decimal(0), "0");
    assert_eq!(decimal(7), "7");
    assert_eq!(decimal(10), "10");
    assert_eq!(decimal(1203), "1203");
    assert_eq!(decimal(usize::MAX), usize::MAX.to_string());
}

#[test]
fn texts_compare_as_strings_do() {
    let samples = ["", "a", "ab", "b", "B", "é", "z", "2024-01-02", "2024-01-10", "日本", "\u{10FFFF}"];
    for a in samples {
        for b in samples {
            let expected = match a.cmp(b) {
                std::cmp::Ordering::Less => Order::Less,
                std::cmp::Ordering::Equal => Order::Equal,
                std::cmp::Ordering::Greater => Order::Greater,
            };
            assert_eq!(compare_text(a, b), expected, "{:?} {:?}", a, b);
            assert_eq!(text_eq(a, b), a == b);
        }
    }
}

#[test]
fn characters_go_in_and_out_of_strings() {
    assert_eq!(chars_of("aé日"), vec!['a', 'é', '日']);
    assert_eq!(string_of(&vec!['x', 'ß']), "xß");
    assert_eq!(string_of(&Vec::new()), "");
}

#[test]
fn strings_are_joined() {
    assert_eq!(join(&list(&["a", "b", "c"]), "/"), "a/b/c");
    assert_eq!(join(&list(&["a"]), "/"), "a");
    assert_eq!(join(&list(&[]), "/"), "");
    assert_eq!(join(&list(&["", ""]), ", "), ", ");
}

#[test]
fn xml_text_is_escaped() {
    assert_eq!(escape_xml("a & b < c > d \" e ' f"), "a &amp; b &lt; c &gt; d &quot; e &apos; f");
    assert_eq!(escape_xml("&amp;"), "&amp;amp;");
    assert_eq!(escape_xml(""), "");
    assert_eq!(escape_xml("plain"), "plain");
}

#[test]
fn tags_are_set_apart() {
    assert_eq!(space_tags("<p>a</p><p>b</p>"), " <p> a </p>  <p> b </p> ");
    assert_eq!(strip_html_tags(&space_tags("<p>a</p><p>b</p>")), "a b");
    assert_eq!(space_tags("x"), "x");
}

#[test]
fn texts_are_cut_and_trimmed() {
    assert_eq!(first_chars("héllo", 3), "hél");
    assert_eq!(first_chars("hi", 3), "hi");
    assert_eq!(first_chars("hi", 0), "");
    assert_eq!(trim("  a b \n"), "a b");
    assert_eq!(trim("\u{3000}x"), "x");
    assert_eq!(trim("   "), "");
    assert_eq!(trim(""), "");
    assert_eq!(trim_end_slashes("http://x/y//"), "http://x/y");
    assert_eq!(trim_end_slashes("///"), "");
    assert_eq!(trim_end_slashes("a/b"), "a/b");
}

#[test]
fn lists_are_used_as_sets() {
    let v = list(&["b", "a", "b"]);
    assert!(has_text(&v, "a"));
    assert!(!has_text(&v, "c"));
    assert_eq!(distinct_texts(&v), list(&["b", "a"]));
    assert_eq!(flatten_texts(&vec![list(&["x"]), list(&[]), list(&["y", "z"])]), list(&["x", "y", "z"]));
    assert!(same_texts(&list(&["a", "b"]), &list(&["a", "b"])));
    assert!(!same_texts(&list(&["a", "b"]), &list(&["a"])));
    assert!(!same_texts(&list(&["a", "b"]), &list(&["a", "c"])));
    assert!(starts_with_texts(&list(&["a", "b"]), &list(&["a"])));
    assert!(starts_with_texts(&list(&["a", "b"]), &list(&[])));
    assert!(!starts_with_texts(&list(&["a"]), &list(&["a", "b"])));
    assert!(!starts_with_texts(&list(&["a", "b"]), &list(&["b"])));
    assert_eq!(prefix_of(&list(&["a", "b", "c"]), 2), list(&["a", "b"]));
    let mut sorted = list(&["b", "d"]);
    insert_ascending(&mut sorted, "c".to_string());
    insert_ascending(&mut sorted, "a".to_string());
    insert_ascending(&mut sorted, "e".to_string());
    insert_ascending(&mut sorted, "c".to_string());
    assert_eq!(sorted, list(&["a", "b", "c", "d", "e"]));
}
