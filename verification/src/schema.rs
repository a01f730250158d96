use vstd::prelude::*;

verus! {

/// Names one piece of text that a schema supplies: the opening or closing
/// markup of a block, or the style sheet rules that go with it.
pub enum SchemaPart {
    HeaderStart(u8),
    HeaderEnd(u8),
    HeaderCss(u8),
    BlockQuoteStart,
    BlockQuoteEnd,
    BlockQuoteCss,
    TaskListDoneStart,
    TaskListDoneEnd,
    TaskListDoneCss,
    TaskListTodoStart,
    TaskListTodoEnd,
    TaskListTodoCss,
    CodeBlockStart,
    CodeBlockEnd,
    CodeBlockCss,
    CssTagStart,
    CssTagEnd,
}

/// The bytes written for a piece of schema text (its UTF-8 encoding).
pub open spec fn part_bytes<S: Schema>(s: &S, part: SchemaPart) -> Seq<u8> {
    vstd::utf8::encode_utf8(s.text(part))
}

/// The markup that an HTML document is written with. Each method hands back
/// the text of one `SchemaPart`; `text` says what that text is.
pub trait Schema {
    spec fn text(&self, part: SchemaPart) -> Seq<char>;

    fn h1_start(&self) -> (r: &str)
        ensures
            r@ == self.text(SchemaPart::HeaderStart(1)),
    ;

    fn h1_end(&self) -> (r: &str)
        ensures
            r@ == self.text(SchemaPart::HeaderEnd(1)),
    ;

    fn h2_start(&self) -> (r: &str)
        ensures
            r@ == self.text(SchemaPart::HeaderStart(2)),
    ;

    fn h2_end(&self) -> (r: &str)
        ensures
            r@ == self.text(SchemaPart::HeaderEnd(2)),
    ;

    fn h3_start(&self) -> (r: &str)
        ensures
            r@ == self.text(SchemaPart::HeaderStart(3)),
    ;

    fn h3_end(&self) -> (r: &str)
        ensures
            r@ == self.text(SchemaPart::HeaderEnd(3)),
    ;

    fn h4_start(&self) -> (r: &str)
        ensures
            r@ == self.text(SchemaPart::HeaderStart(4)),
    ;

    fn h4_end(&self) -> (r: &str)
        ensures
            r@ == self.text(SchemaPart::HeaderEnd(4)),
    ;

    fn h5_start(&self) -> (r: &str)
        ensures
            r@ == self.text(SchemaPart::HeaderStart(5)),
    ;

    fn h5_end(&self) -> (r: &str)
        ensures
            r@ == self.text(SchemaPart::HeaderEnd(5)),
    ;

    fn h6_start(&self) -> (r: &str)
        ensures
            r@ == self.text(SchemaPart::HeaderStart(6)),
    ;

    fn h6_end(&self) -> (r: &str)
        ensures
            r@ == self.text(SchemaPart::HeaderEnd(6)),
    ;

    fn block_quote_start(&self) -> (r: &str)
        ensures
            r@ == self.text(SchemaPart::BlockQuoteStart),
    ;

    fn block_quote_end(&self) -> (r: &str)
        ensures
            r@ == self.text(SchemaPart::BlockQuoteEnd),
    ;

    fn task_list_done_start(&self) -> (r: &str)
        ensures
            r@ == self.text(SchemaPart::TaskListDoneStart),
    ;

    fn task_list_done_end(&self) -> (r: &str)
        ensures
            r@ == self.text(SchemaPart::TaskListDoneEnd),
    ;

    fn task_list_todo_start(&self) -> (r: &str)
        ensures
            r@ == self.text(SchemaPart::TaskListTodoStart),
    ;

    fn task_list_todo_end(&self) -> (r: &str)
        ensures
            r@ == self.text(SchemaPart::TaskListTodoEnd),
    ;

    fn code_block_start(&self) -> (r: &str)
        ensures
            r@ == self.text(SchemaPart::CodeBlockStart),
    ;

    fn code_block_end(&self) -> (r: &str)
        ensures
            r@ == self.text(SchemaPart::CodeBlockEnd),
    ;

    fn h1_css(&self) -> (r: &str)
        ensures
            r@ == self.text(SchemaPart::HeaderCss(1)),
    ;

    fn h2_css(&self) -> (r: &str)
        ensures
            r@ == self.text(SchemaPart::HeaderCss(2)),
    ;

    fn h3_css(&self) -> (r: &str)
        ensures
            r@ == self.text(SchemaPart::HeaderCss(3)),
    ;

    fn h4_css(&self) -> (r: &str)
        ensures
            r@ == self.text(SchemaPart::HeaderCss(4)),
    ;

    fn h5_css(&self) -> (r: &str)
        ensures
            r@ == self.text(SchemaPart::HeaderCss(5)),
    ;

    fn h6_css(&self) -> (r: &str)
        ensures
            r@ == self.text(SchemaPart::HeaderCss(6)),
    ;

    fn block_quote_css(&self) -> (r: &str)
        ensures
            r@ == self.text(SchemaPart::BlockQuoteCss),
    ;

    fn task_list_done_css(&self) -> (r: &str)
        ensures
            r@ == self.text(SchemaPart::TaskListDoneCss),
    ;

    fn task_list_todo_css(&self) -> (r: &str)
        ensures
            r@ == self.text(SchemaPart::TaskListTodoCss),
    ;

    fn code_block_css(&self) -> (r: &str)
        ensures
            r@ == self.text(SchemaPart::CodeBlockCss),
    ;

    /// The tag that opens the style sheet (`<style>` in the default schema).
    fn css_tag_start(&self) -> (r: &str)
        ensures
            r@ == self.text(SchemaPart::CssTagStart),
    ;

    /// The tag that closes the style sheet (`</style>` in the default schema).
    fn css_tag_end(&self) -> (r: &str)
        ensures
            r@ == self.text(SchemaPart::CssTagEnd),
    ;
}

/// A marker for schemas that can highlight code.
pub trait SyntaxHighlight {}

/// The schema the engine ships with.
pub struct DefaultSchema;

impl Schema for DefaultSchema {
    open spec fn text(&self, part: SchemaPart) -> Seq<char> {
        match part {
            SchemaPart::HeaderStart(1) => "<h1>"@,
            SchemaPart::HeaderStart(2) => "<h2>"@,
            SchemaPart::HeaderStart(3) => "<h3>"@,
            SchemaPart::HeaderStart(4) => "<h4>"@,
            SchemaPart::HeaderStart(5) => "<h5>"@,
            SchemaPart::HeaderStart(6) => "<h6>"@,
            SchemaPart::HeaderEnd(1) => "</h1>"@,
            SchemaPart::HeaderEnd(2) => "</h2>"@,
            SchemaPart::HeaderEnd(3) => "</h3>"@,
            SchemaPart::HeaderEnd(4) => "</h4>"@,
            SchemaPart::HeaderEnd(5) => "</h5>"@,
            SchemaPart::HeaderEnd(6) => "</h6>"@,
            SchemaPart::BlockQuoteStart => "<div class=\"block-quote\">"@,
            SchemaPart::BlockQuoteEnd => "</div>"@,
            SchemaPart::TaskListDoneStart => "<div class=\"task-list-done\"></div><span class=\"task-list-done-text\">"@,
            SchemaPart::TaskListDoneEnd => "</span>"@,
            SchemaPart::TaskListTodoStart => "<div class=\"task-list-todo\"></div><span class=\"task-list-todo-text\">"@,
            SchemaPart::TaskListTodoEnd => "</span>"@,
            SchemaPart::BlockQuoteCss => ".block-quote {\n\t\t\tmargin-top: 5px;\n\t\t\tborder-left: 2px solid #666666;\n\t\t\tpadding-left: 10px; \n\t\t\tcolor: #888888\n\t\t}"@,
            SchemaPart::TaskListDoneCss => ".task-list-done {\n\t\t\tdisplay:inline-block;\n\t\t\tborder: black solid 1px;\n\t\t\twidth: 10px;\n\t\t\theight: 10px\n\t\t}\n\n\t\t.task-list-done-text {\n\t\t\tfont-style: italic\n\t\t}"@,
            SchemaPart::TaskListTodoCss => ".task-list-todo {\n\t\t\tdisplay:inline-block;\n\t\t\tbackground-color: black;\n\t\t\twidth: 12px;\n\t\t\theight: 12px\n\t\t}\n\n\t\t.task-list-todo-text {\n\t\t\tfont-style: italic\n\t\t}"@,
            SchemaPart::CodeBlockStart => "<div class=\"code-block\">"@,
            SchemaPart::CodeBlockEnd => "</div>"@,
            SchemaPart::CodeBlockCss => ".code-block {\n\t\t\tbackground-color: #999999\n\t\t}"@,
            SchemaPart::CssTagStart => "<style>"@,
            SchemaPart::CssTagEnd => "</style>"@,
            _ => ""@,
        }
    }

    fn h1_start(&self) -> (r: &str) {
        "<h1>"
    }

    fn h1_end(&self) -> (r: &str) {
        "</h1>"
    }

    fn h2_start(&self) -> (r: &str) {
        "<h2>"
    }

    fn h2_end(&self) -> (r: &str) {
        "</h2>"
    }

    fn h3_start(&self) -> (r: &str) {
        "<h3>"
    }

    fn h3_end(&self) -> (r: &str) {
        "</h3>"
    }

    fn h4_start(&self) -> (r: &str) {
        "<h4>"
    }

    fn h4_end(&self) -> (r: &str) {
        "</h4>"
    }

    fn h5_start(&self) -> (r: &str) {
        "<h5>"
    }

    fn h5_end(&self) -> (r: &str) {
        "</h5>"
    }

    fn h6_start(&self) -> (r: &str) {
        "<h6>"
    }

    fn h6_end(&self) -> (r: &str) {
        "</h6>"
    }

    fn block_quote_start(&self) -> (r: &str) {
        "<div class=\"block-quote\">"
    }

    fn block_quote_end(&self) -> (r: &str) {
        "</div>"
    }

    fn task_list_done_start(&self) -> (r: &str) {
        "<div class=\"task-list-done\"></div><span class=\"task-list-done-text\">"
    }

    fn task_list_done_end(&self) -> (r: &str) {
        "</span>"
    }

    fn task_list_todo_start(&self) -> (r: &str) {
        "<div class=\"task-list-todo\"></div><span class=\"task-list-todo-text\">"
    }

    fn task_list_todo_end(&self) -> (r: &str) {
        "</span>"
    }

    fn h1_css(&self) -> (r: &str) {
        ""
    }

    fn h2_css(&self) -> (r: &str) {
        ""
    }

    fn h3_css(&self) -> (r: &str) {
        ""
    }

    fn h4_css(&self) -> (r: &str) {
        ""
    }

    fn h5_css(&self) -> (r: &str) {
        ""
    }

    fn h6_css(&self) -> (r: &str) {
        ""
    }

    fn block_quote_css(&self) -> (r: &str) {
        ".block-quote {\n\t\t\tmargin-top: 5px;\n\t\t\tborder-left: 2px solid #666666;\n\t\t\tpadding-left: 10px; \n\t\t\tcolor: #888888\n\t\t}"
    }

    fn task_list_done_css(&self) -> (r: &str) {
        ".task-list-done {\n\t\t\tdisplay:inline-block;\n\t\t\tborder: black solid 1px;\n\t\t\twidth: 10px;\n\t\t\theight: 10px\n\t\t}\n\n\t\t.task-list-done-text {\n\t\t\tfont-style: italic\n\t\t}"
    }

    fn task_list_todo_css(&self) -> (r: &str) {
        ".task-list-todo {\n\t\t\tdisplay:inline-block;\n\t\t\tbackground-color: black;\n\t\t\twidth: 12px;\n\t\t\theight: 12px\n\t\t}\n\n\t\t.task-list-todo-text {\n\t\t\tfont-style: italic\n\t\t}"
    }

    fn code_block_start(&self) -> (r: &str) {
        "<div class=\"code-block\">"
    }

    fn code_block_end(&self) -> (r: &str) {
        "</div>"
    }

    fn css_tag_start(&self) -> (r: &str) {
        "<style>"
    }

    fn css_tag_end(&self) -> (r: &str) {
        "</style>"
    }

    fn code_block_css(&self) -> (r: &str) {
        ".code-block {\n\t\t\tbackground-color: #999999\n\t\t}"
    }
}

/// `p` stands in `s` at position `i`.
pub open spec fn occurs_at(s: Seq<char>, p: Seq<char>, i: int) -> bool {
    0 <= i && i + p.len() <= s.len() && s.subrange(i, i + p.len()) == p
}

/// The class name that the default schema gives to the markup of a block
/// quote, a done task and an open task.
pub open spec fn default_class(part: SchemaPart) -> Seq<char> {
    match part {
        SchemaPart::BlockQuoteStart | SchemaPart::BlockQuoteCss => "block-quote"@,
        SchemaPart::TaskListDoneStart | SchemaPart::TaskListDoneCss => "task-list-done"@,
        _ => "task-list-todo"@,
    }
}

/// In the default schema, the style rules of each kind of block are the
/// rules of the class its start markup uses: the start markup holds
/// `class="C"`, and the rules begin with `.C {`; for tasks, the start markup
/// also holds `class="C-text"` and the rules also hold `.C-text {`. So a done
/// task and an open task are styled by their own rules.
pub proof fn lemma_default_css_matches_markup(start: SchemaPart, css: SchemaPart)
    requires
        (start == SchemaPart::BlockQuoteStart && css == SchemaPart::BlockQuoteCss) || (start
            == SchemaPart::TaskListDoneStart && css == SchemaPart::TaskListDoneCss) || (start
            == SchemaPart::TaskListTodoStart && css == SchemaPart::TaskListTodoCss),
    ensures
        default_class(start) == default_class(css),
        occurs_at(DefaultSchema.text(start), "class=\""@ + default_class(start) + "\""@, 5),
        occurs_at(DefaultSchema.text(css), "."@ + default_class(css) + " {"@, 0),
        start != SchemaPart::BlockQuoteStart ==> occurs_at(
            DefaultSchema.text(start),
            "class=\""@ + default_class(start) + "-text\""@,
            40,
        ),
        start != SchemaPart::BlockQuoteStart ==> occurs_at(
            DefaultSchema.text(css),
            "."@ + default_class(css) + "-text {"@,
            110,
        ),
{
    reveal_strlit("block-quote");
    reveal_strlit("task-list-done");
    reveal_strlit("task-list-todo");
    reveal_strlit("class=\"");
    reveal_strlit("\"");
    reveal_strlit("-text\"");
    reveal_strlit(".");
    reveal_strlit(" {");
    reveal_strlit("-text {");
    reveal_strlit("<div class=\"block-quote\">");
    reveal_strlit("<div class=\"task-list-done\"></div><span class=\"task-list-done-text\">");
    reveal_strlit("<div class=\"task-list-todo\"></div><span class=\"task-list-todo-text\">");
    reveal_strlit(".block-quote {\n\t\t\tmargin-top: 5px;\n\t\t\tborder-left: 2px solid #666666;\n\t\t\tpadding-left: 10px; \n\t\t\tcolor: #888888\n\t\t}");
    reveal_strlit(".task-list-done {\n\t\t\tdisplay:inline-block;\n\t\t\tborder: black solid 1px;\n\t\t\twidth: 10px;\n\t\t\theight: 10px\n\t\t}\n\n\t\t.task-list-done-text {\n\t\t\tfont-style: italic\n\t\t}");
    reveal_strlit(".task-list-todo {\n\t\t\tdisplay:inline-block;\n\t\t\tbackground-color: black;\n\t\t\twidth: 12px;\n\t\t\theight: 12px\n\t\t}\n\n\t\t.task-list-todo-text {\n\t\t\tfont-style: italic\n\t\t}");
    let st = DefaultSchema.text(start);
    let cs = DefaultSchema.text(css);
    let c = default_class(start);
    let p1 = "class=\""@ + c + "\""@;
    let p2 = "."@ + c + " {"@;
    assert(st.subrange(5, 5 + p1.len() as int) =~= p1);
    assert(cs.subrange(0, p2.len() as int) =~= p2);
    if start != SchemaPart::BlockQuoteStart {
        let p3 = "class=\""@ + c + "-text\""@;
        let p4 = "."@ + c + "-text {"@;
        assert(st.subrange(40, 40 + p3.len() as int) =~= p3);
        assert(cs.subrange(110, 110 + p4.len() as int) =~= p4);
    }
}

/// In the default schema a header of level `l` opens with `<hl>` and closes
/// with `</hl>`, and each other block closes the element its start markup
/// opens last.
pub proof fn lemma_default_header_markup(level: u8)
    requires
        1 <= level <= 6,
    ensures
        DefaultSchema.text(SchemaPart::HeaderStart(level)) == "<h"@ + crate::tag::decimal(level as nat) + ">"@,
        DefaultSchema.text(SchemaPart::HeaderEnd(level)) == "</h"@ + crate::tag::decimal(level as nat) + ">"@,
        DefaultSchema.text(SchemaPart::BlockQuoteEnd) == "</div>"@,
        DefaultSchema.text(SchemaPart::TaskListDoneEnd) == "</span>"@,
        DefaultSchema.text(SchemaPart::TaskListTodoEnd) == "</span>"@,
{
    reveal_strlit("<h");
    reveal_strlit("</h");
    reveal_strlit(">");
    reveal_strlit("<h1>");
    reveal_strlit("<h2>");
    reveal_strlit("<h3>");
    reveal_strlit("<h4>");
    reveal_strlit("<h5>");
    reveal_strlit("<h6>");
    reveal_strlit("</h1>");
    reveal_strlit("</h2>");
    reveal_strlit("</h3>");
    reveal_strlit("</h4>");
    reveal_strlit("</h5>");
    reveal_strlit("</h6>");
    let d = crate::tag::decimal(level as nat);
    assert(d == seq![crate::tag::digit_char(level as nat)]);
    assert(DefaultSchema.text(SchemaPart::HeaderStart(level)) =~= "<h"@ + d + ">"@);
    assert(DefaultSchema.text(SchemaPart::HeaderEnd(level)) =~= "</h"@ + d + ">"@);
}

} // verus!
