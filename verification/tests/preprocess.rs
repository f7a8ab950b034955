use emscripten_helper::preprocess::{preprocess, scan, LexError, Span, SpanKind};

fn strip(text: &str) -> String {
    String::from_utf8(preprocess(text.as_bytes()).unwrap()).unwrap()
}

#[test]
fn line_comment_and_newline_become_spaces() {
    assert_eq!(strip("foo // bar\nbaz"), "foo   baz");
}

#[test]
fn literal_keeps_comment_markers() {
    assert_eq!(strip("'it is // not a comment'\n"), "'it is // not a comment' ");
}

#[test]
fn stripping_twice_is_stripping_once() {
    let inputs = [
        "foo // bar\nbaz",
        "'it is // not a comment'\n",
        "a /* b */ c",
        "x = 1; /* one\n two */ y = \"/* kept */\";\n// tail",
        "a / b /c\n/ * d",
        "",
        "\n\n\n",
        "/*/ x */",
    ];
    for input in inputs {
        let once = preprocess(input.as_bytes()).unwrap();
        let twice = preprocess(&once).unwrap();
        assert_eq!(twice, once, "input {:?}", input);
    }
}

#[test]
fn empty_script_stays_empty() {
    assert_eq!(preprocess(b""), Ok(Vec::new()));
}

#[test]
fn block_comment_is_one_space() {
    assert_eq!(strip("a/* b\n c */d"), "a d");
    assert_eq!(strip("/**/"), " ");
}

#[test]
fn first_closing_marker_ends_block_comment() {
    assert_eq!(strip("/* a */ b */"), "  b */");
    assert_eq!(strip("/* /* nested */ x"), "  x");
}

#[test]
fn closing_marker_may_share_the_star() {
    assert_eq!(strip("/*/ x"), "  x");
}

#[test]
fn line_comment_at_end_of_input() {
    assert_eq!(strip("a // b"), "a  ");
    assert_eq!(strip("//"), " ");
}

#[test]
fn line_comment_hides_quotes_and_block_markers() {
    assert_eq!(strip("// don't /* stop\nx"), "  x");
}

#[test]
fn block_comment_hides_quotes() {
    assert_eq!(strip("/* \" */ 'a'"), "  'a'");
}

#[test]
fn literal_keeps_line_breaks_and_other_quote() {
    assert_eq!(strip("\"a\nb'c\"\n"), "\"a\nb'c\" ");
    assert_eq!(strip("'/* \" */'"), "'/* \" */'");
}

#[test]
fn backslash_does_not_escape_a_quote() {
    // the literal ends at the quote after the backslash; `s` is plain text
    assert_eq!(strip("'it\\'s // gone"), "'it\\'s  ");
    // here the third quote opens a literal that is never closed
    assert_eq!(
        preprocess(b"'it\\'s' // text"),
        Err(LexError::UnterminatedLiteral)
    );
}

#[test]
fn lone_slash_and_star_are_plain() {
    assert_eq!(strip("a / b * c"), "a / b * c");
    assert_eq!(strip("/"), "/");
    assert_eq!(strip("*/"), "*/");
}

#[test]
fn bytes_above_ascii_pass_through() {
    assert_eq!(strip("é // ü\n'ß' /* ∑ */ 😀"), "é   'ß'   😀");
}

#[test]
fn unterminated_block_comment_is_refused() {
    assert_eq!(preprocess(b"a /* b"), Err(LexError::UnterminatedComment));
    assert_eq!(preprocess(b"/*"), Err(LexError::UnterminatedComment));
    assert_eq!(preprocess(b"/* *"), Err(LexError::UnterminatedComment));
}

#[test]
fn unterminated_literal_is_refused() {
    assert_eq!(preprocess(b"x = 'abc"), Err(LexError::UnterminatedLiteral));
    assert_eq!(preprocess(b"\"abc'"), Err(LexError::UnterminatedLiteral));
    assert_eq!(preprocess(b"'"), Err(LexError::UnterminatedLiteral));
}

#[test]
fn first_unclosed_span_gives_the_error() {
    assert_eq!(preprocess(b"'a /* b"), Err(LexError::UnterminatedLiteral));
    assert_eq!(preprocess(b"/* 'a"), Err(LexError::UnterminatedComment));
}

#[test]
fn scan_names_each_span() {
    let src = b"a\n// c\n/* d */'e'";
    let expected = [
        (0, SpanKind::Plain, 1),
        (1, SpanKind::Newline, 1),
        (2, SpanKind::LineComment, 4),
        (6, SpanKind::Newline, 1),
        (7, SpanKind::BlockComment, 7),
        (14, SpanKind::Literal, 3),
    ];
    for (pos, kind, len) in expected {
        assert_eq!(scan(src, pos), Ok(Some(Span { kind, len })), "at {}", pos);
    }
    assert_eq!(scan(src, 17), Ok(None));
    assert_eq!(scan(src, 99), Ok(None));
}

#[test]
fn scan_reports_unclosed_spans() {
    assert_eq!(scan(b"ab/* c", 2), Err(LexError::UnterminatedComment));
    assert_eq!(scan(b"ab\"c", 2), Err(LexError::UnterminatedLiteral));
    // seen from inside, the rest of an unclosed span is plain text
    assert_eq!(
        scan(b"ab\"c", 3),
        Ok(Some(Span {
            kind: SpanKind::Plain,
            len: 1
        }))
    );
}

#[test]
fn replaced_kinds() {
    assert!(SpanKind::Newline.replaced());
    assert!(SpanKind::LineComment.replaced());
    assert!(SpanKind::BlockComment.replaced());
    assert!(!SpanKind::Literal.replaced());
    assert!(!SpanKind::Plain.replaced());
}
