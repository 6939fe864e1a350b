use sql_plugin::text::{chars_of, eq_ignoring_case, find_first, prefix_is, to_upper};

#[test]
fn characters_of_a_text() {
    assert_eq!(chars_of("a\u{e9}b"), vec!['a', '\u{e9}', 'b']);
    assert_eq!(chars_of(""), Vec::<char>::new());
}

#[test]
fn upper_case_of_ascii_letters_only() {
    assert_eq!(to_upper('a'), 'A');
    assert_eq!(to_upper('z'), 'Z');
    assert_eq!(to_upper('m'), 'M');
    assert_eq!(to_upper('A'), 'A');
    assert_eq!(to_upper('1'), '1');
    assert_eq!(to_upper('`'), '`');
    assert_eq!(to_upper('{'), '{');
    assert_eq!(to_upper('\u{e9}'), '\u{e9}');
    for c in ['a', 'Q', '_', ' ', '\u{df}', '\u{212a}'] {
        assert_eq!(to_upper(c), c.to_ascii_uppercase());
    }
}

#[test]
fn comparison_without_case() {
    assert!(eq_ignoring_case(&chars_of("Integer"), &chars_of("INTEGER")));
    assert!(eq_ignoring_case(&chars_of(""), &chars_of("")));
    assert!(!eq_ignoring_case(&chars_of("INT"), &chars_of("INTEGER")));
    assert!(!eq_ignoring_case(&chars_of("INT"), &chars_of("INK")));
    for (a, b) in [("VarChar", "VARCHAR"), ("k", "\u{212a}"), ("a", "b"), ("ab", "a")] {
        assert_eq!(eq_ignoring_case(&chars_of(a), &chars_of(b)), a.eq_ignore_ascii_case(b));
    }
}

#[test]
fn first_occurrence() {
    assert_eq!(find_first(&chars_of("sqlite:a:b"), ':'), Some(6));
    assert_eq!(find_first(&chars_of(":x"), ':'), Some(0));
    assert_eq!(find_first(&chars_of("test.db"), ':'), None);
    assert_eq!(find_first(&chars_of(""), ':'), None);
    assert_eq!(find_first(&chars_of("\u{e9}:"), ':'), Some(1));
}

#[test]
fn prefix_of_a_text() {
    let s = chars_of("sqlite:test.db");
    assert!(prefix_is(&s, 6, "sqlite"));
    assert!(!prefix_is(&s, 6, "sqlit"));
    assert!(!prefix_is(&s, 5, "sqlite"));
    assert!(!prefix_is(&s, 6, "mysql:"));
    assert!(prefix_is(&s, 0, ""));
    assert!(prefix_is(&s, 14, "sqlite:test.db"));
    assert!(!prefix_is(&s, 15, "sqlite:test.db!"));
}
