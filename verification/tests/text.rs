use informer::text::{chars_of, push_centered, push_left_aligned, push_repeated, UNKNOWN};

fn left(value: &str, width: usize) -> String {
    let mut out = String::from("[");
    push_left_aligned(&mut out, value, width);
    out.push(']');
    out
}

fn center(value: &str, width: usize) -> String {
    let mut out = String::from("[");
    push_centered(&mut out, value, width);
    out.push(']');
    out
}

#[test]
fn unknown_sentinel() {
    assert_eq!(UNKNOWN, "unknown");
}

#[test]
fn repeated_characters_are_appended() {
    let mut out = String::from("ab");
    push_repeated(&mut out, '─', 3);
    assert_eq!(out, "ab───");
    push_repeated(&mut out, 'x', 0);
    assert_eq!(out, "ab───");
}

#[test]
fn characters_of_a_text() {
    assert_eq!(chars_of(""), Vec::<char>::new());
    assert_eq!(chars_of("aé日"), vec!['a', 'é', '日']);
}

#[test]
fn short_value_is_filled_on_the_right() {
    assert_eq!(left("ab", 5), "[ab   ]");
    assert_eq!(left("", 3), "[   ]");
    assert_eq!(left("abc", 3), "[abc]");
}

#[test]
fn long_value_is_cut_on_the_right() {
    assert_eq!(left("abcdef", 3), "[abc]");
    assert_eq!(left("abcdef", 0), "[]");
    assert_eq!(left("日本語のファイル", 4), "[日本語の]");
}

#[test]
fn centered_value_is_filled_on_both_sides() {
    assert_eq!(center("ab", 6), "[  ab  ]");
    assert_eq!(center("ab", 5), "[ ab  ]");
    assert_eq!(center("abc", 4), "[abc ]");
    assert_eq!(center("", 3), "[   ]");
    assert_eq!(center("", 0), "[]");
}

#[test]
fn long_centered_value_is_cut_on_the_right() {
    assert_eq!(center("abcdef", 3), "[abc]");
    assert_eq!(center("abcdef", 6), "[abcdef]");
}

#[test]
fn fields_agree_with_the_standard_formatter() {
    let values = ["", "a", "ab", "abc", "abcd", "abcdefgh", "é", "日本語", "a b\tc"];
    for value in values {
        for width in 0..10 {
            assert_eq!(left(value, width), format!("[{value:<width$.width$}]"));
            assert_eq!(center(value, width), format!("[{value:^width$.width$}]"));
        }
    }
}
