use lib::html_writer::HtmlWriter;
use lib::html_writer::HtmlWriterImpl;
use lib::parser::Parser;
use lib::parser::SyntaxError;
use lib::parser::StatefulParser;
use lib::schema::DefaultSchema;
use lib::schema::Schema;

fn render(doc: &str) -> Option<String> {
    let mut p = StatefulParser::new(doc.as_bytes(), DefaultSchema, HtmlWriterImpl::new());
    if !p.can_complete() {
        return None;
    }
    assert!(p.parse_and_write().is_ok());
    let w = p.into_writer();
    Some(String::from_utf8(w.output().to_vec()).unwrap())
}

fn css(rules: &[&str]) -> String {
    let mut s = String::from("\n<style>\n");
    for r in rules {
        s.push_str(r);
        s.push('\n');
    }
    s.push_str("</style>");
    s
}

#[test]
fn header_then_quote() {
    let s = DefaultSchema;
    let expected = format!(
        "<h1>\nTitle</h1>\n<div class=\"block-quote\">\nquote</div>{}",
        css(&[s.block_quote_css()])
    );
    assert_eq!(render("# Title\n> quote").unwrap(), expected);
}

#[test]
fn task_lists_close_each_other() {
    let s = DefaultSchema;
    let expected = format!(
        "{}\ndone<br>\n</span>{}\ntodo</span>{}",
        s.task_list_done_start(),
        s.task_list_todo_start(),
        css(&[s.task_list_done_css(), s.task_list_todo_css()])
    );
    assert_eq!(render("- [x] done\n- [ ] todo").unwrap(), expected);
}

#[test]
fn header_open_at_end_is_closed() {
    assert_eq!(
        render("hello\n# T").unwrap(),
        format!("hello<br>\n<h1>\nT</h1>{}", css(&[""]))
    );
}

#[test]
fn spaces_and_tabs() {
    assert_eq!(
        render("> a b\tc").unwrap(),
        format!(
            "<div class=\"block-quote\">\na&nbsp;b&nbsp;&nbsp;&nbsp;&nbsp;c</div>{}",
            css(&[DefaultSchema.block_quote_css()])
        )
    );
}

#[test]
fn block_quote_lines_and_blank_line() {
    let s = DefaultSchema;
    assert_eq!(
        render("> a\n b\n\n> c").unwrap(),
        format!(
            "<div class=\"block-quote\">\na<br>\n&nbsp;b<br>\n</div><div class=\"block-quote\">\nc</div>{}",
            css(&[s.block_quote_css()])
        )
    );
}

#[test]
fn document_without_open_block_closes_nothing() {
    assert_eq!(render("hello").unwrap(), format!("hello{}", css(&[])));
    assert_eq!(render("a").unwrap(), "a\n<style>\n</style>");
    assert_eq!(render("").unwrap(), css(&[]));
    assert_eq!(render("# T\n").unwrap(), format!("<h1>\nT</h1>\n{}", css(&[])));
    assert_eq!(render("text\n").unwrap(), format!("text<br>\n{}", css(&[])));
}

#[test]
fn tag_after_multi_byte_start_is_text() {
    assert_eq!(
        render("€# x\n> q").unwrap(),
        format!(
            "€#&nbsp;x<br>\n<div class=\"block-quote\">\nq</div>{}",
            css(&[DefaultSchema.block_quote_css()])
        )
    );
}

#[test]
fn syntax_error_text() {
    let e = SyntaxError::new(String::from("oops"), 3, 14);
    assert_eq!(e.debug_text(), "[Syntax Error] at line 3 column 14, message: \"oops\"");
    assert_eq!(e.msg(), "oops");
    assert_eq!(e.line_num(), 3);
    assert_eq!(e.column_num(), 14);
}

#[test]
fn used_tags_are_cleared_after_parse() {
    let mut p = StatefulParser::new(b"> q", DefaultSchema, HtmlWriterImpl::new());
    assert!(p.can_complete());
    assert!(p.parse_and_write().is_ok());
    for i in 0..9 {
        assert!(!p.mapper().writer().used_tag(i));
    }
}

#[test]
fn document_with_ascii_line_starts_parses_every_token() {
    let s = DefaultSchema;
    let expected = format!(
        "<h2>\nA</h2>\n{}\nb<br>\n</span><div class=\"block-quote\">\nc</div>{}",
        s.task_list_todo_start(),
        css(&[s.block_quote_css(), s.task_list_todo_css()])
    );
    assert_eq!(render("## A\n- [ ] b\n> c").unwrap(), expected);
}
