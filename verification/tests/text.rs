use nixpkgs_eval::text::{
    chars_of, find_first, find_last, is_white_space, join_all, matches_at, push_decimal,
    push_range, string_of_range, trim_bounds,
};

fn chars(s: &str) -> Vec<char> {
    s.chars().collect()
}

#[test]
fn white_space_is_what_std_takes_for_it() {
    for code in 0u32..=0x10FFFF {
        if let Some(c) = char::from_u32(code) {
            assert_eq!(is_white_space(c), c.is_whitespace(), "U+{code:04X}");
        }
    }
}

#[test]
fn chars_of_and_string_of_range_are_inverse() {
    let text = "a = é;\n𝒙";
    let list = chars_of(text);
    assert_eq!(list, vec!['a', ' ', '=', ' ', 'é', ';', '\n', '𝒙']);
    assert_eq!(string_of_range(&list, 0, list.len()), text);
    assert_eq!(chars_of(""), Vec::<char>::new());
    assert_eq!(string_of_range(&Vec::new(), 0, 0), "");
}

#[test]
fn ranges_are_half_open() {
    let list = chars("hello");
    assert_eq!(string_of_range(&list, 1, 4), "ell");
    assert_eq!(string_of_range(&list, 2, 2), "");
    let mut out = String::from("<");
    push_range(&mut out, &list, 0, 5);
    push_range(&mut out, &list, 4, 5);
    assert_eq!(out, "<helloo");
}

#[test]
fn trim_bounds_skips_white_space_on_both_sides() {
    let list = chars(" \t x y\u{a0}\n");
    assert_eq!(trim_bounds(&list, 0, list.len()), (3, 6));
    assert_eq!(trim_bounds(&list, 3, 6), (3, 6));
    assert_eq!(trim_bounds(&list, 4, 5), (5, 5));
    let blank = chars(" \n ");
    assert_eq!(trim_bounds(&blank, 0, 3), (3, 3));
    assert_eq!(trim_bounds(&blank, 0, 0), (0, 0));
}

#[test]
fn trim_bounds_agrees_with_std_trim() {
    for text in ["", "a", " a", "a ", "  a b  ", "\n\n", "\u{3000}x\u{2003}", "x\u{200b}"] {
        let list = chars(text);
        let (lo, hi) = trim_bounds(&list, 0, list.len());
        assert_eq!(string_of_range(&list, lo, hi), text.trim());
    }
}

#[test]
fn first_and_last_occurrence() {
    let hay = chars("abcabcab");
    assert_eq!(find_first(&hay, &chars("bc")), Some(1));
    assert_eq!(find_last(&hay, &chars("bc")), Some(4));
    assert_eq!(find_first(&hay, &chars("ab")), Some(0));
    assert_eq!(find_last(&hay, &chars("ab")), Some(6));
    assert_eq!(find_first(&hay, &chars("ca")), Some(2));
    assert_eq!(find_first(&hay, &chars("x")), None);
    assert_eq!(find_last(&hay, &chars("x")), None);
    assert_eq!(find_first(&hay, &chars("abcabcabc")), None);
}

#[test]
fn the_empty_needle_occurs_everywhere() {
    let hay = chars("abc");
    assert_eq!(find_first(&hay, &Vec::new()), Some(0));
    assert_eq!(find_last(&hay, &Vec::new()), Some(3));
    assert_eq!(find_first(&Vec::new(), &Vec::new()), Some(0));
    assert!(matches_at(&hay, &Vec::new(), 3));
    assert!(!matches_at(&hay, &Vec::new(), 4));
}

#[test]
fn matches_at_checks_the_bounds() {
    let hay = chars("abc");
    assert!(matches_at(&hay, &chars("bc"), 1));
    assert!(!matches_at(&hay, &chars("bc"), 2));
    assert!(!matches_at(&hay, &chars("bc"), usize::MAX));
    assert!(!matches_at(&hay, &chars("abcd"), 0));
}

#[test]
fn join_all_puts_the_separator_between_neighbours() {
    let parts = vec!["a".to_string(), "".to_string(), "c".to_string()];
    assert_eq!(join_all(&parts, ", "), "a, , c");
    assert_eq!(join_all(&vec!["only".to_string()], "\n"), "only");
    assert_eq!(join_all(&Vec::new(), "\n"), "");
}

#[test]
fn push_decimal_writes_base_ten() {
    for n in [0u64, 7, 10, 42, 100, 1234567890, u64::MAX] {
        let mut out = String::from("n=");
        push_decimal(&mut out, n);
        assert_eq!(out, format!("n={n}"));
    }
}
