use lib::schema::DefaultSchema;
use lib::schema::Schema;
use lib::tag::Tag;
use lib::tag::LEN;

#[test]
fn char_len_of_tags() {
    assert_eq!(Tag::NoTag.char_len(), 0);
    assert_eq!(Tag::Header(1).char_len(), 2);
    assert_eq!(Tag::Header(6).char_len(), 7);
    assert_eq!(Tag::BlockQuote.char_len(), 2);
    assert_eq!(Tag::TaskList(true).char_len(), 6);
    assert_eq!(Tag::TaskList(false).char_len(), 6);
}

#[test]
fn tag_indexes_are_distinct_slots() {
    let tags = [
        Tag::Header(1),
        Tag::Header(2),
        Tag::Header(3),
        Tag::Header(4),
        Tag::Header(5),
        Tag::Header(6),
        Tag::BlockQuote,
        Tag::TaskList(true),
        Tag::TaskList(false),
    ];
    for (i, t) in tags.iter().enumerate() {
        assert_eq!(t.tag_index(), i);
    }
    assert_eq!(LEN, 4);
}

#[test]
fn start_and_end_tags() {
    let s = DefaultSchema;
    assert_eq!(Tag::Header(2).start_tag(&s), "<h2>");
    assert_eq!(Tag::Header(2).end_tag(&s), "</h2>");
    assert_eq!(Tag::BlockQuote.start_tag(&s), "<div class=\"block-quote\">");
    assert_eq!(Tag::BlockQuote.end_tag(&s), "</div>");
    assert_eq!(
        Tag::TaskList(true).start_tag(&s),
        "<div class=\"task-list-done\"></div><span class=\"task-list-done-text\">"
    );
    assert_eq!(
        Tag::TaskList(false).start_tag(&s),
        "<div class=\"task-list-todo\"></div><span class=\"task-list-todo-text\">"
    );
    assert_eq!(Tag::TaskList(false).end_tag(&s), "</span>");
    assert_eq!(Tag::NoTag.end_tag(&s), "");
}

#[test]
fn header_start_and_end() {
    let s = DefaultSchema;
    assert_eq!(Tag::header_start(&s, 1), "<h1>");
    assert_eq!(Tag::header_start(&s, 6), "<h6>");
    assert_eq!(Tag::header_end(&s, 4), "</h4>");
}

#[test]
fn default_schema_texts() {
    let s = DefaultSchema;
    assert_eq!(s.css_tag_start(), "<style>");
    assert_eq!(s.css_tag_end(), "</style>");
    assert_eq!(s.h1_css(), "");
    assert_eq!(s.code_block_start(), "<div class=\"code-block\">");
    assert_eq!(s.code_block_end(), "</div>");
    assert_eq!(s.code_block_css(), ".code-block {\n\t\t\tbackground-color: #999999\n\t\t}");
    assert!(s.block_quote_css().starts_with(".block-quote {"));
}
