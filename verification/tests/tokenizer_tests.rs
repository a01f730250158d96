use lib::tag::Tag;
use lib::tokenizer::tokenize;
use lib::tokenizer::Token;
use lib::tokenizer::Tokenizer;

fn text(data: &[u8], char_len: u32) -> Token<'_> {
    Token::PureText { data, char_len }
}

#[test]
fn test() {
    let doc = "# Title\n> quote\n- [x] done\n- [ ] todo\n".as_bytes();
    let mut tokenizer = Tokenizer::new(doc);
    let mut count = 0;
    while let Some(t) = tokenizer.next() {
        println!("{:?}", t);
        count += 1;
    }
    assert!(count > 0);
}

#[test]
fn header_levels_one_to_six() {
    assert_eq!(tokenize(b"# a"), vec![Token::Tag(Tag::Header(1)), text(b"a", 1)]);
    assert_eq!(tokenize(b"###### a"), vec![Token::Tag(Tag::Header(6)), text(b"a", 1)]);
}

#[test]
fn header_at_end_of_input() {
    assert_eq!(tokenize(b"##"), vec![Token::Tag(Tag::Header(2))]);
}

#[test]
fn seven_hashes_are_text() {
    assert_eq!(
        tokenize(b"####### x"),
        vec![text(b"#######", 13), Token::Space, text(b"x", 1)]
    );
}

#[test]
fn hash_without_space_is_text() {
    assert_eq!(tokenize(b"#x"), vec![text(b"#x", 3)]);
    assert_eq!(tokenize(b"##x y"), vec![text(b"##x", 5), Token::Space, text(b"y", 1)]);
}

#[test]
fn hash_then_line_feed_is_text() {
    assert_eq!(tokenize(b"#\na"), vec![text(b"#\n", 3), text(b"a", 1)]);
}

#[test]
fn hash_mid_line_is_text() {
    assert_eq!(
        tokenize(b"a #"),
        vec![text(b"a", 1), Token::Space, text(b"#", 1)]
    );
}

#[test]
fn block_quote() {
    assert_eq!(tokenize(b"> q"), vec![Token::Tag(Tag::BlockQuote), text(b"q", 1)]);
    assert_eq!(tokenize(b">q"), vec![text(b">q", 3)]);
    assert_eq!(tokenize(b">"), vec![text(b">", 1)]);
}

#[test]
fn task_lists() {
    assert_eq!(
        tokenize(b"- [x] a"),
        vec![Token::Tag(Tag::TaskList(true)), text(b"a", 1)]
    );
    assert_eq!(
        tokenize(b"- [ ] a"),
        vec![Token::Tag(Tag::TaskList(false)), text(b"a", 1)]
    );
}

#[test]
fn task_marker_mismatch_is_text() {
    assert_eq!(tokenize(b"- [?] "), vec![text(b"- [?", 5), text(b"]", 1), Token::Space]);
    assert_eq!(tokenize(b"-x"), vec![text(b"-x", 3)]);
    assert_eq!(tokenize(b"- [X] "), vec![text(b"- [X", 5), text(b"]", 1), Token::Space]);
}

#[test]
fn task_marker_cut_off_ends_stream() {
    assert_eq!(tokenize(b"- ["), vec![]);
    assert_eq!(tokenize(b"a\n- [x]"), vec![text(b"a", 1), Token::Ln]);
}

#[test]
fn escape_makes_next_char_text() {
    assert_eq!(tokenize(b"\\# a"), vec![text(b"#", 1), Token::Space, text(b"a", 1)]);
}

#[test]
fn trailing_backslash_ends_stream() {
    assert_eq!(tokenize(b"a\\"), vec![text(b"a", 1)]);
}

#[test]
fn line_breaks() {
    assert_eq!(
        tokenize(b"a\r\nb\rc\nd"),
        vec![
            text(b"a", 1),
            Token::Ln,
            text(b"b", 1),
            Token::Ln,
            text(b"c", 1),
            Token::Ln,
            text(b"d", 1)
        ]
    );
    assert_eq!(tokenize(b"\r"), vec![Token::Ln]);
}

#[test]
fn tabs_end_line_start() {
    assert_eq!(tokenize(b"\t\t#"), vec![Token::Tab, Token::Tab, text(b"#", 1)]);
}

#[test]
fn multi_byte_characters() {
    let e_acute = "é".as_bytes();
    assert_eq!(tokenize(e_acute), vec![text(e_acute, 1)]);
    let euro = "€".as_bytes();
    assert_eq!(
        tokenize("\n€# x".as_bytes()),
        vec![Token::Ln, text(euro, 1), text(b"#", 1), Token::Space, text(b"x", 1)]
    );
    assert_eq!(
        tokenize("é# a".as_bytes()),
        vec![text(e_acute, 1), text(b"#", 1), Token::Space, text(b"a", 1)]
    );
}

#[test]
fn token_char_len() {
    assert_eq!(Token::Space.char_len(), 1);
    assert_eq!(Token::Tab.char_len(), 1);
    assert_eq!(Token::Ln.char_len(), 0);
    assert_eq!(Token::Tag(Tag::Header(3)).char_len(), 4);
    assert_eq!(text(b"abc", 7).char_len(), 7);
}

#[test]
fn next_is_none_after_end() {
    let mut t = Tokenizer::new(b"a");
    assert_eq!(t.next(), Some(text(b"a", 1)));
    assert_eq!(t.next(), None);
    assert_eq!(t.next(), None);
    assert_eq!(t.offset(), 1);
    assert_eq!(t.text_len(), 1);
}

#[test]
fn tokens_take_at_least_one_byte() {
    let doc = "# h\n> q\n- [x] t\n\\*\t x é".as_bytes();
    let mut t = Tokenizer::new(doc);
    let mut last = t.offset();
    while let Some(tok) = t.next() {
        assert!(t.offset() > last);
        assert!(tok.char_len() as usize <= 2 * (t.offset() - last));
        last = t.offset();
    }
}

#[test]
fn eight_hashes() {
    assert_eq!(
        tokenize(b"########"),
        vec![text(b"#######", 13), text(b"#", 1)]
    );
}

#[test]
fn token_debug_text() {
    assert_eq!(Token::Space.debug_text(), "Space");
    assert_eq!(Token::Tab.debug_text(), "Tab");
    assert_eq!(Token::Ln.debug_text(), "LineFeed");
    assert_eq!(Token::Tag(Tag::Header(2)).debug_text(), "Tag(Header(2))");
    assert_eq!(Token::Tag(Tag::TaskList(false)).debug_text(), "Tag(TaskList(false))");
    assert_eq!(Token::Tag(Tag::NoTag).debug_text(), "Tag(None)");
    assert_eq!(text(b"a\"b", 3).debug_text(), "Ok(\"a\\\"b\")");
    assert_eq!(text("é".as_bytes(), 1).debug_text(), "Ok(\"é\")");
    for bad in [&[0xFFu8][..], &[b'a', 0xFF, b'b'][..], &[0xE2, 0x82][..], &[b'x', 0xC3][..]] {
        let expected = format!("{:?}", std::str::from_utf8(bad));
        assert_eq!(text(bad, 1).debug_text(), expected);
    }
    assert_eq!(
        text(&[b'a', 0xFF, b'b'], 1).debug_text(),
        "Err(Utf8Error { valid_up_to: 1, error_len: Some(1) })"
    );
    assert_eq!(
        text(&[0xE2, 0x82], 1).debug_text(),
        "Err(Utf8Error { valid_up_to: 0, error_len: None })"
    );
    assert_eq!(text(b"a\"b", 3).debug_text(), format!("{:?}", std::str::from_utf8(b"a\"b")));
}

#[test]
fn tag_debug_text() {
    assert_eq!(Tag::NoTag.debug_text(), "None");
    assert_eq!(Tag::Header(6).debug_text(), "Header(6)");
    assert_eq!(Tag::BlockQuote.debug_text(), "BlockQuote");
    assert_eq!(Tag::TaskList(true).debug_text(), "TaskList(true)");
}
