use objview::lexer::{blank, find_line_end, split_tokens, Span};

fn words(text: &str) -> Vec<String> {
    split_tokens(text.as_bytes(), 0, text.len())
        .iter()
        .map(|s| String::from(&text[s.start..s.end]))
        .collect()
}

#[test]
fn white_space_is_space_and_tab_to_carriage_return() {
    for b in 0u8..=255 {
        assert_eq!(blank(b), b == b' ' || (9..=13).contains(&b), "{}", b);
    }
}

#[test]
fn tokens_are_the_runs_between_white_space() {
    assert_eq!(words("v 1 2 3"), vec!["v", "1", "2", "3"]);
    assert_eq!(words("   v\t\t1  2 \r 3  "), vec!["v", "1", "2", "3"]);
    assert_eq!(words(""), Vec::<String>::new());
    assert_eq!(words(" \t \r"), Vec::<String>::new());
    assert_eq!(words("f 1/2/3 4//5"), vec!["f", "1/2/3", "4//5"]);
    assert_eq!(words("one"), vec!["one"]);
    assert_eq!(words("a\u{b}b\u{c}c"), vec!["a", "b", "c"]);
}

#[test]
fn tokens_are_given_by_their_places() {
    let text = "ab  cd e";
    assert_eq!(
        split_tokens(text.as_bytes(), 0, text.len()),
        vec![Span { start: 0, end: 2 }, Span { start: 4, end: 6 }, Span { start: 7, end: 8 }]
    );
    assert_eq!(
        split_tokens(text.as_bytes(), 1, 5),
        vec![Span { start: 1, end: 2 }, Span { start: 4, end: 5 }]
    );
    assert_eq!(split_tokens(text.as_bytes(), 2, 4), Vec::<Span>::new());
    assert_eq!(split_tokens(text.as_bytes(), 3, 3), Vec::<Span>::new());
}

#[test]
fn lines_end_at_a_newline_or_at_the_end() {
    let text = "ab\n\ncd";
    assert_eq!(find_line_end(text.as_bytes(), 0), 2);
    assert_eq!(find_line_end(text.as_bytes(), 1), 2);
    assert_eq!(find_line_end(text.as_bytes(), 2), 2);
    assert_eq!(find_line_end(text.as_bytes(), 3), 3);
    assert_eq!(find_line_end(text.as_bytes(), 4), 6);
    assert_eq!(find_line_end(text.as_bytes(), 6), 6);
    assert_eq!(find_line_end("".as_bytes(), 0), 0);
}
