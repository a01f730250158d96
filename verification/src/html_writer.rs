use crate::schema::part_bytes;
use crate::schema::Schema;
use crate::schema::SchemaPart;
use crate::tag::Tag;
use crate::tag::LEN;
use vstd::prelude::*;

verus! {

/// How many kinds of block can have style rules: the six header levels,
/// block quotes, and done and open tasks.
pub const TAG_LEN: usize = LEN - 1 + 5 + 1;

/// The bytes of a piece of text.
pub open spec fn text_bytes(t: Seq<char>) -> Seq<u8> {
    vstd::utf8::encode_utf8(t)
}

pub open spec fn space_bytes() -> Seq<u8> {
    text_bytes("&nbsp;"@)
}

pub open spec fn tab_bytes() -> Seq<u8> {
    text_bytes("&nbsp;&nbsp;&nbsp;&nbsp;"@)
}

pub open spec fn br_bytes() -> Seq<u8> {
    text_bytes("<br>"@)
}

pub open spec fn ln_bytes() -> Seq<u8> {
    text_bytes("\n"@)
}

/// The schema part that holds the style rules of used-tag slot `idx`.
pub open spec fn css_part(idx: int) -> SchemaPart {
    if 0 <= idx < 6 {
        SchemaPart::HeaderCss((idx + 1) as u8)
    } else if idx == 6 {
        SchemaPart::BlockQuoteCss
    } else if idx == 7 {
        SchemaPart::TaskListDoneCss
    } else {
        SchemaPart::TaskListTodoCss
    }
}

/// The style rules written for a closed block are that block's own rules:
/// the slot a tag marks and the rules written for that slot agree.
pub proof fn lemma_css_part_of_tag(tag: Tag)
    requires
        tag.has_index(),
    ensures
        css_part(tag.spec_index()) == match tag {
            Tag::Header(level) => SchemaPart::HeaderCss(level),
            Tag::BlockQuote => SchemaPart::BlockQuoteCss,
            Tag::TaskList(true) => SchemaPart::TaskListDoneCss,
            _ => SchemaPart::TaskListTodoCss,
        },
{
}

/// The style rules of the used slots among the first `i`, each followed by
/// a line feed, in slot order.
pub open spec fn css_rules<S: Schema>(s: &S, used: Seq<bool>, i: int) -> Seq<u8>
    decreases i,
{
    if i <= 0 {
        Seq::empty()
    } else {
        css_rules(s, used, i - 1) + if used[i - 1] {
            part_bytes(s, css_part(i - 1)) + ln_bytes()
        } else {
            Seq::empty()
        }
    }
}

/// The style sheet for the used slots: a line feed, the schema's opening style tag,
/// a line feed, the rules of each used slot, and the closing style tag.
pub open spec fn css_block<S: Schema>(s: &S, used: Seq<bool>) -> Seq<u8> {
    ln_bytes() + part_bytes(s, SchemaPart::CssTagStart) + ln_bytes() + css_rules(s, used, TAG_LEN as int)
        + part_bytes(s, SchemaPart::CssTagEnd)
}

/// The used-tag table after a block `tag` is closed: its slot is marked
/// used; closing where no block is open marks nothing.
pub open spec fn mark_used(tag: Tag, used: Seq<bool>) -> Seq<bool> {
    if tag.has_index() {
        used.update(tag.spec_index(), true)
    } else {
        used
    }
}

/// No slot used.
pub open spec fn no_used_tags() -> Seq<bool> {
    Seq::new(TAG_LEN as nat, |i: int| false)
}

/// Where the HTML goes. A writer holds the bytes written so far and, for
/// each kind of block, whether one was closed (so that its style rules are
/// wanted).
pub trait HtmlWriter {
    spec fn written(&self) -> Seq<u8>;

    spec fn used_tags(&self) -> Seq<bool>;

    fn write(&mut self, data: &[u8]) -> (n: usize)
        ensures
            final(self).written() == old(self).written() + data@,
            final(self).used_tags() == old(self).used_tags(),
            n == data@.len(),
    ;

    /// Whether slot `idx` is marked used.
    fn used_tag(&self, idx: usize) -> (r: bool)
        requires
            idx < self.used_tags().len(),
        ensures
            r == self.used_tags()[idx as int],
    ;

    /// Marks the slot of `tag` used.
    fn set_used_tag(&mut self, tag: Tag)
        requires
            tag.has_index(),
            old(self).used_tags().len() == TAG_LEN,
        ensures
            final(self).written() == old(self).written(),
            final(self).used_tags() == old(self).used_tags().update(tag.spec_index(), true),
    ;

    /// Marks every slot unused.
    fn clear_used_tag(&mut self)
        ensures
            final(self).written() == old(self).written(),
            final(self).used_tags() == no_used_tags(),
    ;

    fn write_html_space(&mut self) -> (n: usize)
        ensures
            final(self).written() == old(self).written() + space_bytes(),
            final(self).used_tags() == old(self).used_tags(),
            n == space_bytes().len(),
    {
        self.write("&nbsp;".as_bytes())
    }

    fn write_html_tab(&mut self) -> (n: usize)
        ensures
            final(self).written() == old(self).written() + tab_bytes(),
            final(self).used_tags() == old(self).used_tags(),
            n == tab_bytes().len(),
    {
        self.write("&nbsp;&nbsp;&nbsp;&nbsp;".as_bytes())
    }

    fn write_br(&mut self) -> (n: usize)
        ensures
            final(self).written() == old(self).written() + br_bytes(),
            final(self).used_tags() == old(self).used_tags(),
            n == br_bytes().len(),
    {
        self.write("<br>".as_bytes())
    }

    fn write_ln(&mut self) -> (n: usize)
        ensures
            final(self).written() == old(self).written() + ln_bytes(),
            final(self).used_tags() == old(self).used_tags(),
            n == ln_bytes().len(),
    {
        self.write("\n".as_bytes())
    }

    /// Writes the style sheet for the slots marked used, then marks them all
    /// unused.
    fn write_css<S: Schema>(&mut self, s: &S)
        requires
            old(self).used_tags().len() == TAG_LEN,
        ensures
            final(self).written() == old(self).written() + css_block(s, old(self).used_tags()),
            final(self).used_tags() == no_used_tags(),
    {
        self.write_css0(s);
        self.clear_used_tag();
    }

    /// Writes the style sheet for the slots marked used.
    fn write_css0<S: Schema>(&mut self, s: &S)
        requires
            old(self).used_tags().len() == TAG_LEN,
        ensures
            final(self).written() == old(self).written() + css_block(s, old(self).used_tags()),
            final(self).used_tags() == old(self).used_tags(),
    {
        let ghost start = self.written();
        let ghost used = self.used_tags();
        self.write_ln();
        self.write(s.css_tag_start().as_bytes());
        self.write_ln();
        let ghost head = self.written();
        assert(head == start + ln_bytes() + part_bytes(s, SchemaPart::CssTagStart) + ln_bytes());
        let mut idx: usize = 0;
        while idx < TAG_LEN
            invariant
                0 <= idx <= TAG_LEN,
                self.used_tags() == used,
                used.len() == TAG_LEN,
                self.written() == head + css_rules(s, used, idx as int),
            decreases TAG_LEN - idx,
        {
            if self.used_tag(idx) {
                let css = match idx {
                    0 => s.h1_css(),
                    1 => s.h2_css(),
                    2 => s.h3_css(),
                    3 => s.h4_css(),
                    4 => s.h5_css(),
                    5 => s.h6_css(),
                    6 => s.block_quote_css(),
                    7 => s.task_list_done_css(),
                    _ => s.task_list_todo_css(),
                };
                assert(css@ == s.text(css_part(idx as int)));
                self.write(css.as_bytes());
                self.write_ln();
                assert(self.written() == head + css_rules(s, used, idx + 1));
            } else {
                assert(css_rules(s, used, idx + 1) == css_rules(s, used, idx as int));
            }
            idx += 1;
        }
        self.write(s.css_tag_end().as_bytes());
    }
}

/// A writer that keeps the HTML in memory.
pub struct HtmlWriterImpl {
    buf: Vec<u8>,
    used: Vec<bool>,
}

impl HtmlWriterImpl {
    pub fn new() -> (w: Self)
        ensures
            w.written() == Seq::<u8>::empty(),
            w.used_tags() == no_used_tags(),
    {
        let mut used: Vec<bool> = Vec::new();
        let mut i: usize = 0;
        while i < TAG_LEN
            invariant
                i <= TAG_LEN,
                used@ == Seq::new(i as nat, |k: int| false),
            decreases TAG_LEN - i,
        {
            used.push(false);
            i += 1;
        }
        HtmlWriterImpl { buf: Vec::new(), used }
    }

    /// The HTML written so far.
    pub fn output(&self) -> (r: &[u8])
        ensures
            r@ == self.written(),
    {
        self.buf.as_slice()
    }
}

impl HtmlWriter for HtmlWriterImpl {
    closed spec fn written(&self) -> Seq<u8> {
        self.buf@
    }

    closed spec fn used_tags(&self) -> Seq<bool> {
        self.used@
    }

    fn write(&mut self, data: &[u8]) -> (n: usize) {
        let mut i: usize = 0;
        let ghost start = self.buf@;
        while i < data.len()
            invariant
                i <= data@.len(),
                self.buf@ == start + data@.subrange(0, i as int),
                self.used@ == old(self).used@,
                start == old(self).buf@,
            decreases data@.len() - i,
        {
            self.buf.push(data[i]);
            i += 1;
            assert(self.buf@ == start + data@.subrange(0, i as int));
        }
        assert(data@.subrange(0, data@.len() as int) == data@);
        data.len()
    }

    fn used_tag(&self, idx: usize) -> (r: bool) {
        self.used[idx]
    }

    fn set_used_tag(&mut self, tag: Tag) {
        let idx = tag.tag_index();
        self.used.set(idx, true);
    }

    fn clear_used_tag(&mut self) {
        let mut i: usize = 0;
        let mut fresh: Vec<bool> = Vec::new();
        while i < TAG_LEN
            invariant
                i <= TAG_LEN,
                fresh@ == Seq::new(i as nat, |k: int| false),
            decreases TAG_LEN - i,
        {
            fresh.push(false);
            i += 1;
        }
        self.used = fresh;
    }
}

proof fn lemma_ascii_bytes(chars: Seq<char>, bytes: Seq<u8>)
    requires
        chars.len() == bytes.len(),
        forall|i: int| #![trigger chars[i]] 0 <= i < chars.len() ==> '\0' <= chars[i] <= '\u{7f}' && chars[i] as u8 == bytes[i],
    ensures
        text_bytes(chars) == bytes,
{
    broadcast use vstd::utf8::is_ascii_chars_encode_utf8;

    assert forall|i: int| 0 <= i < chars.len() implies '\0' <= #[trigger] chars[i] <= '\u{7f}' by {
        assert('\0' <= chars[i] <= '\u{7f}' && chars[i] as u8 == bytes[i]);
    }
    assert(vstd::utf8::is_ascii_chars(chars));
    assert(text_bytes(chars) =~= bytes);
}

/// The fixed pieces of HTML are these bytes: `<br>`, a line feed, `&nbsp;`
/// for a space and four of them for a tab.
pub proof fn lemma_fixed_bytes()
    ensures
        br_bytes() == seq![60u8, 98, 114, 62],
        ln_bytes() == seq![10u8],
        space_bytes() == seq![38u8, 110, 98, 115, 112, 59],
        tab_bytes() == space_bytes() + space_bytes() + space_bytes() + space_bytes(),
{
    reveal_strlit("<br>");
    reveal_strlit("\n");
    reveal_strlit("&nbsp;");
    reveal_strlit("&nbsp;&nbsp;&nbsp;&nbsp;");
    lemma_ascii_bytes("<br>"@, seq![60u8, 98, 114, 62]);
    lemma_ascii_bytes("\n"@, seq![10u8]);
    let sp = seq![38u8, 110, 98, 115, 112, 59];
    lemma_ascii_bytes("&nbsp;"@, sp);
    lemma_ascii_bytes("&nbsp;&nbsp;&nbsp;&nbsp;"@, sp + sp + sp + sp);
}

/// With no kind of block used, the style sheet holds no rules: just a line
/// feed, the opening style tag, a line feed and the closing style tag.
pub proof fn lemma_css_block_without_used_tags<S: Schema>(s: &S)
    ensures
        css_block(s, no_used_tags()) == seq![10u8] + part_bytes(s, SchemaPart::CssTagStart) + seq![10u8]
            + part_bytes(s, SchemaPart::CssTagEnd),
{
    lemma_fixed_bytes();
    lemma_css_rules_unused(s, no_used_tags(), TAG_LEN as int);
    assert(css_rules(s, no_used_tags(), TAG_LEN as int) == Seq::<u8>::empty());
    assert(seq![10u8] + part_bytes(s, SchemaPart::CssTagStart) + seq![10u8] + Seq::<u8>::empty()
        =~= seq![10u8] + part_bytes(s, SchemaPart::CssTagStart) + seq![10u8]);
}

/// Slots that are not marked used contribute no rules.
pub proof fn lemma_css_rules_unused<S: Schema>(s: &S, used: Seq<bool>, i: int)
    requires
        forall|j: int| 0 <= j < i ==> !used[j],
    ensures
        css_rules(s, used, i) == Seq::<u8>::empty(),
    decreases i,
{
    if i > 0 {
        lemma_css_rules_unused(s, used, i - 1);
        assert(css_rules(s, used, i) =~= Seq::<u8>::empty());
    }
}

} // verus!
