use lib::html_writer::HtmlWriter;
use lib::html_writer::HtmlWriterImpl;
use lib::html_writer::TAG_LEN;
use lib::mapper::Mapper;
use lib::schema::DefaultSchema;
use lib::schema::Schema;
use lib::tag::Tag;

#[test]
fn writes_append() {
    let mut w = HtmlWriterImpl::new();
    assert_eq!(w.write(b"ab"), 2);
    assert_eq!(w.write(b"c"), 1);
    assert_eq!(w.write_html_space(), 6);
    assert_eq!(w.write_html_tab(), 24);
    assert_eq!(w.write_br(), 4);
    assert_eq!(w.write_ln(), 1);
    assert_eq!(
        w.output(),
        b"abc&nbsp;&nbsp;&nbsp;&nbsp;&nbsp;<br>\n"
    );
}

#[test]
fn css_lists_used_tags_in_slot_order_then_clears() {
    let s = DefaultSchema;
    let mut w = HtmlWriterImpl::new();
    w.set_used_tag(Tag::TaskList(false));
    w.set_used_tag(Tag::BlockQuote);
    assert!(w.used_tag(6));
    assert!(w.used_tag(8));
    assert!(!w.used_tag(7));
    w.write_css(&s);
    let expected = format!(
        "\n<style>\n{}\n{}\n</style>",
        s.block_quote_css(),
        s.task_list_todo_css()
    );
    assert_eq!(w.output(), expected.as_bytes());
    for i in 0..TAG_LEN {
        assert!(!w.used_tag(i));
    }
}

#[test]
fn css_with_nothing_used() {
    let mut w = HtmlWriterImpl::new();
    w.write_css0(&DefaultSchema);
    assert_eq!(w.output(), b"\n<style>\n</style>");
}

#[test]
fn clear_used_tag_forgets() {
    let mut w = HtmlWriterImpl::new();
    w.set_used_tag(Tag::Header(1));
    assert!(w.used_tag(0));
    w.clear_used_tag();
    assert!(!w.used_tag(0));
    assert_eq!(TAG_LEN, 9);
}

#[test]
fn mapper_writes_markup() {
    let mut m = Mapper::new(DefaultSchema, HtmlWriterImpl::new());
    assert_eq!(m.write_tag_start(Tag::Header(3)), 1);
    assert_eq!(m.write(b"x"), 1);
    assert_eq!(m.write_header_end(3), 1);
    assert_eq!(m.write_br(), 1);
    assert_eq!(m.write_html_space(), 6);
    assert_eq!(m.write_html_tab(), 24);
    m.write_tag_start(Tag::BlockQuote);
    m.write_tag_end(Tag::BlockQuote);
    m.write_css();
    let s = DefaultSchema;
    let expected = format!(
        "<h3>\nx</h3>\n<br>\n&nbsp;&nbsp;&nbsp;&nbsp;&nbsp;<div class=\"block-quote\">\n</div>\n<style>\n{}\n</style>",
        s.block_quote_css()
    );
    assert_eq!(m.writer().output(), expected.as_bytes());
    let w = m.into_writer();
    assert!(!w.used_tag(6));
}
