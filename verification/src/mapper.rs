use crate::html_writer::br_bytes;
use crate::html_writer::css_block;
use crate::html_writer::ln_bytes;
use crate::html_writer::mark_used;
use crate::html_writer::no_used_tags;
use crate::html_writer::space_bytes;
use crate::html_writer::tab_bytes;
use crate::html_writer::text_bytes;
use crate::html_writer::HtmlWriter;
use crate::html_writer::TAG_LEN;
use crate::schema::part_bytes;
use crate::schema::Schema;
use crate::schema::SchemaPart;
use crate::tag::Tag;
use vstd::prelude::*;

verus! {

/// Writes the HTML for each piece of a document, in the markup of a schema.
pub struct Mapper<S, W> {
    schema: S,
    writer: W,
}

impl<S: Schema, W: HtmlWriter> Mapper<S, W> {
    pub closed spec fn schema_view(&self) -> S {
        self.schema
    }

    pub closed spec fn writer_view(&self) -> W {
        self.writer
    }

    /// The bytes written so far.
    pub open spec fn written(&self) -> Seq<u8> {
        self.writer_view().written()
    }

    /// Which kinds of block have been closed since the last style sheet.
    pub open spec fn used_tags(&self) -> Seq<bool> {
        self.writer_view().used_tags()
    }

    pub fn new(s: S, w: W) -> (m: Self)
        ensures
            m.schema_view() == s,
            m.writer_view() == w,
    {
        Mapper { schema: s, writer: w }
    }

    /// The writer.
    pub fn writer(&self) -> (r: &W)
        ensures
            *r == self.writer_view(),
    {
        &self.writer
    }

    /// Gives back the writer.
    pub fn into_writer(self) -> (r: W)
        ensures
            r == self.writer_view(),
    {
        self.writer
    }

    pub fn write_header_end(&mut self, level: u8) -> (n: usize)
        requires
            1 <= level <= 6,
        ensures
            final(self).schema_view() == old(self).schema_view(),
            final(self).written() == old(self).written() + part_bytes(
                &old(self).schema_view(),
                SchemaPart::HeaderEnd(level),
            ) + ln_bytes(),
            final(self).used_tags() == old(self).used_tags(),
            n == ln_bytes().len(),
    {
        self.writer.write(Tag::header_end(&self.schema, level).as_bytes());
        self.writer.write_ln()
    }

    pub fn write_br(&mut self) -> (n: usize)
        ensures
            final(self).schema_view() == old(self).schema_view(),
            final(self).written() == old(self).written() + br_bytes() + ln_bytes(),
            final(self).used_tags() == old(self).used_tags(),
            n == ln_bytes().len(),
    {
        self.writer.write_br();
        self.writer.write_ln()
    }

    pub fn write_html_space(&mut self) -> (n: usize)
        ensures
            final(self).schema_view() == old(self).schema_view(),
            final(self).written() == old(self).written() + space_bytes(),
            final(self).used_tags() == old(self).used_tags(),
            n == space_bytes().len(),
    {
        self.writer.write_html_space()
    }

    pub fn write_html_tab(&mut self) -> (n: usize)
        ensures
            final(self).schema_view() == old(self).schema_view(),
            final(self).written() == old(self).written() + tab_bytes(),
            final(self).used_tags() == old(self).used_tags(),
            n == tab_bytes().len(),
    {
        self.writer.write_html_tab()
    }

    pub fn write(&mut self, data: &[u8]) -> (n: usize)
        ensures
            final(self).schema_view() == old(self).schema_view(),
            final(self).written() == old(self).written() + data@,
            final(self).used_tags() == old(self).used_tags(),
            n == data@.len(),
    {
        self.writer.write(data)
    }

    /// Opens a block: its start markup and a line feed.
    pub fn write_tag_start(&mut self, tag: Tag) -> (n: usize)
        requires
            tag.has_index(),
        ensures
            final(self).schema_view() == old(self).schema_view(),
            final(self).written() == old(self).written() + part_bytes(
                &old(self).schema_view(),
                tag.start_part(),
            ) + ln_bytes(),
            final(self).used_tags() == old(self).used_tags(),
            n == ln_bytes().len(),
    {
        self.writer.write(tag.start_tag(&self.schema).as_bytes());
        self.writer.write_ln()
    }

    /// Closes a block: its end markup; its kind is marked used. Where no
    /// block is open (`NoTag`) nothing is written or marked.
    pub fn write_tag_end(&mut self, tag: Tag)
        requires
            tag.has_index() || tag == Tag::NoTag,
            old(self).used_tags().len() == TAG_LEN,
        ensures
            final(self).schema_view() == old(self).schema_view(),
            final(self).written() == old(self).written() + text_bytes(
                tag.end_text(&old(self).schema_view()),
            ),
            final(self).used_tags() == mark_used(tag, old(self).used_tags()),
    {
        self.writer.write(tag.end_tag(&self.schema).as_bytes());
        match tag {
            Tag::NoTag => {},
            _ => self.writer.set_used_tag(tag),
        }
    }

    /// Writes the style sheet for the kinds of block used, and forgets them.
    pub fn write_css(&mut self)
        requires
            old(self).used_tags().len() == TAG_LEN,
        ensures
            final(self).schema_view() == old(self).schema_view(),
            final(self).written() == old(self).written() + css_block(
                &old(self).schema_view(),
                old(self).used_tags(),
            ),
            final(self).used_tags() == no_used_tags(),
    {
        self.writer.write_css(&self.schema)
    }
}

} // verus!
