use crate::html_writer::br_bytes;
use crate::html_writer::css_block;
use crate::html_writer::ln_bytes;
use crate::html_writer::lemma_fixed_bytes;
use crate::html_writer::mark_used;
use crate::html_writer::no_used_tags;
use crate::html_writer::space_bytes;
use crate::html_writer::tab_bytes;
use crate::html_writer::text_bytes;
use crate::html_writer::HtmlWriter;
use crate::html_writer::TAG_LEN;
use crate::mapper::Mapper;
use crate::schema::part_bytes;
use crate::schema::Schema;
use crate::schema::SchemaPart;
use crate::tag::decimal;
use crate::tag::push_decimal;
use crate::tag::Tag;
use crate::tokenizer::lemma_next_token_progress;
use crate::tokenizer::lemma_tags_only_at_line_start;
use crate::tokenizer::next_token;
use crate::tokenizer::state_fits;
use crate::tokenizer::tokens_from;
use crate::tokenizer::tokens_of;
use crate::tokenizer::state_at_line_start;
use crate::tokenizer::Token;
use crate::tokenizer::TokenView;
use crate::tokenizer::Tokenizer;
use crate::tokenizer::State as LineState;
use vstd::prelude::*;

verus! {

/// `std::io::Error`, carried by `ParseError` for failures to read or write.
#[verifier::external_type_specification]
#[verifier::external_body]
pub struct ExIoError(std::io::Error);

/// Why a document could not be turned into HTML.
#[derive(Debug)]
pub enum ParseError {
    SytaxError(SyntaxError),
    IoError(std::io::Error),
}

impl From<std::io::Error> for ParseError {
    fn from(io_error: std::io::Error) -> (r: Self) {
        ParseError::IoError(io_error)
    }
}

impl vstd::std_specs::convert::FromSpecImpl<std::io::Error> for ParseError {
    open spec fn obeys_from_spec() -> bool {
        true
    }

    open spec fn from_spec(io_error: std::io::Error) -> Self {
        ParseError::IoError(io_error)
    }
}

/// A mistake in a document, with where it stands.
#[derive(Debug)]
pub struct SyntaxError {
    msg: String,
    line_num: u32,
    column_num: u32,
}

impl SyntaxError {
    pub fn new(msg: String, line_num: u32, column_num: u32) -> (e: Self)
        ensures
            e.msg_view() == msg@,
            e.line() == line_num,
            e.column() == column_num,
    {
        SyntaxError { msg, line_num, column_num }
    }

    pub fn msg(&self) -> (r: &str)
        ensures
            r@ == self.msg_view(),
    {
        self.msg.as_str()
    }

    pub fn line_num(&self) -> (r: u32)
        ensures
            r == self.line(),
    {
        self.line_num
    }

    pub fn column_num(&self) -> (r: u32)
        ensures
            r == self.column(),
    {
        self.column_num
    }

    /// How the error is shown: `[Syntax Error] at line L column C, message: "M"`.
    pub open spec fn spec_debug_text(&self) -> Seq<char> {
        "[Syntax Error] at line "@ + decimal(self.line() as nat) + " column "@ + decimal(
            self.column() as nat,
        ) + ", message: \""@ + self.msg_view() + "\""@
    }

    pub fn debug_text(&self) -> (r: String)
        ensures
            r@ == self.spec_debug_text(),
    {
        let mut r = String::from_str("[Syntax Error] at line ");
        push_decimal(&mut r, self.line_num as u64);
        r.append(" column ");
        push_decimal(&mut r, self.column_num as u64);
        r.append(", message: \"");
        r.append(self.msg.as_str());
        r.append("\"");
        r
    }

    pub closed spec fn msg_view(&self) -> Seq<char> {
        self.msg@
    }

    pub closed spec fn line(&self) -> u32 {
        self.line_num
    }

    pub closed spec fn column(&self) -> u32 {
        self.column_num
    }
}

/// Where the parser stands in the document: which line, and how many
/// characters into it.
struct Record {
    line_num: u32,
    column_num: u32,
}

impl Record {
    fn new() -> (r: Self)
        ensures
            r.line_num == 1,
            r.column_num == 0,
    {
        Record { line_num: 1, column_num: 0 }
    }

    /// A token of width 0 is a line break: the next line starts; any other
    /// token moves along the line by its width.
    fn update_nums(&mut self, token_char_len: u32)
        requires
            token_char_len == 0 ==> old(self).line_num < u32::MAX,
            old(self).column_num + token_char_len <= u32::MAX,
        ensures
            token_char_len == 0 ==> final(self).line_num == old(self).line_num + 1
                && final(self).column_num == 0,
            token_char_len != 0 ==> final(self).line_num == old(self).line_num
                && final(self).column_num == old(self).column_num + token_char_len,
    {
        if token_char_len == 0 {
            self.line_num += 1;
            self.column_num = 0;
        } else {
            self.column_num += token_char_len;
        }
    }
}

/// What the parser is in the middle of.
#[derive(Clone, Copy, PartialEq, Eq, Debug, Structural)]
pub enum State {
    Start,
    /// Spaces, tabs and text outside any block.
    PureText,
    Ln,
    Tag(Tag),
    Value,
    BlockValueLn,
}

/// The line and column after token `t`: a token of width 0 starts the next
/// line at column 0; any other moves along the line by its width.
pub open spec fn place_step(pl: (int, int), t: TokenView) -> (int, int) {
    if t.spec_char_len() == 0 {
        (pl.0 + 1, 0)
    } else {
        (pl.0, pl.1 + t.spec_char_len())
    }
}

/// The line and column after the tokens `ts`.
pub open spec fn place_after(pl: (int, int), ts: Seq<TokenView>) -> (int, int)
    decreases ts.len(),
{
    if ts.len() == 0 {
        pl
    } else {
        place_step(place_after(pl, ts.drop_last()), ts.last())
    }
}

/// Whether a line and column count fit in a `u32`.
pub open spec fn place_fits(pl: (int, int)) -> bool {
    pl.0 <= u32::MAX && pl.1 <= u32::MAX
}

/// Whether the line and column counts fit in a `u32` after every token of
/// `ts`, starting from `pl`.
pub open spec fn places_fit(pl: (int, int), ts: Seq<TokenView>) -> bool {
    forall|k: int| 0 <= k <= ts.len() ==> #[trigger] place_fits(place_after(pl, ts.take(k)))
}

/// Whether the parser can take token `t` in state `st` with open block `lt`:
/// a block tag only at the start of a line (and a real one), and a block to
/// close wherever one is closed.
pub open spec fn step_ok(st: State, lt: Tag, t: TokenView) -> bool {
    match st {
        State::Start | State::Ln => t matches TokenView::Tag(tag) ==> tag.has_index(),
        State::PureText => !(t is Tag),
        State::Tag(_) | State::Value => {
            &&& !(t is Tag)
            &&& (t is Ln && lt is Header) ==> lt.has_index()
        },
        State::BlockValueLn => {
            &&& (t is Ln || t is Tag) ==> lt.has_index()
            &&& (t matches TokenView::Tag(tag) ==> tag.has_index())
        },
    }
}

/// The state and open block after token `t`.
pub open spec fn step_next(st: State, lt: Tag, t: TokenView) -> (State, Tag) {
    match st {
        State::Start | State::Ln => match t {
            TokenView::Ln => (State::Ln, lt),
            TokenView::Tag(tag) => (State::Tag(tag), tag),
            _ => (State::PureText, lt),
        },
        State::PureText => match t {
            TokenView::Ln => (State::Ln, lt),
            _ => (State::PureText, lt),
        },
        State::Tag(_) | State::Value => match t {
            TokenView::Ln => if lt is Header {
                (State::Ln, Tag::NoTag)
            } else {
                (State::BlockValueLn, lt)
            },
            _ => (State::Value, lt),
        },
        State::BlockValueLn => match t {
            TokenView::Space | TokenView::Tab => (State::BlockValueLn, lt),
            TokenView::Ln => (State::Ln, Tag::NoTag),
            TokenView::Tag(tag) => (State::Tag(tag), tag),
            TokenView::PureText { .. } => (State::Value, lt),
        },
    }
}

/// The HTML written for token `t` in state `st` with open block `lt`.
pub open spec fn step_out<S: Schema>(sch: &S, st: State, lt: Tag, t: TokenView) -> Seq<u8> {
    match t {
        TokenView::Space => space_bytes(),
        TokenView::Tab => tab_bytes(),
        TokenView::PureText { data, .. } => data,
        TokenView::Ln => match st {
            State::Tag(_) | State::Value => match lt {
                Tag::Header(level) => part_bytes(sch, SchemaPart::HeaderEnd(level)) + ln_bytes(),
                _ => br_bytes() + ln_bytes(),
            },
            State::BlockValueLn => text_bytes(lt.end_text(sch)),
            _ => br_bytes() + ln_bytes(),
        },
        TokenView::Tag(tag) => match st {
            State::BlockValueLn => text_bytes(lt.end_text(sch)) + part_bytes(sch, tag.start_part())
                + ln_bytes(),
            _ => part_bytes(sch, tag.start_part()) + ln_bytes(),
        },
    }
}

/// The used-tag table after token `t`: a block closed by a line break or by
/// the next block is marked used.
pub open spec fn step_used(st: State, lt: Tag, t: TokenView, used: Seq<bool>) -> Seq<bool> {
    if st == State::BlockValueLn && (t is Ln || t is Tag) {
        mark_used(lt, used)
    } else {
        used
    }
}

/// The state and open block after the tokens `ts`.
pub open spec fn run_state(st: State, lt: Tag, ts: Seq<TokenView>) -> (State, Tag)
    decreases ts.len(),
{
    if ts.len() == 0 {
        (st, lt)
    } else {
        let (st1, lt1) = run_state(st, lt, ts.drop_last());
        step_next(st1, lt1, ts.last())
    }
}

/// Whether the parser can take every token of `ts` in turn.
pub open spec fn run_ok(st: State, lt: Tag, ts: Seq<TokenView>) -> bool
    decreases ts.len(),
{
    if ts.len() == 0 {
        true
    } else {
        let (st1, lt1) = run_state(st, lt, ts.drop_last());
        run_ok(st, lt, ts.drop_last()) && step_ok(st1, lt1, ts.last())
    }
}

/// The HTML written for the tokens `ts`.
pub open spec fn run_out<S: Schema>(sch: &S, st: State, lt: Tag, ts: Seq<TokenView>) -> Seq<u8>
    decreases ts.len(),
{
    if ts.len() == 0 {
        Seq::empty()
    } else {
        let (st1, lt1) = run_state(st, lt, ts.drop_last());
        run_out(sch, st, lt, ts.drop_last()) + step_out(sch, st1, lt1, ts.last())
    }
}

/// The used-tag table after the tokens `ts`.
pub open spec fn run_used(st: State, lt: Tag, ts: Seq<TokenView>, used: Seq<bool>) -> Seq<bool>
    decreases ts.len(),
{
    if ts.len() == 0 {
        used
    } else {
        let (st1, lt1) = run_state(st, lt, ts.drop_last());
        step_used(st1, lt1, ts.last(), run_used(st, lt, ts.drop_last(), used))
    }
}

/// The HTML for the tokens `ts` followed by the end of the document: the
/// HTML of each token, the end markup of the block still open (nothing when
/// none is), and the style sheet for every kind of block closed.
pub open spec fn run_html<S: Schema>(sch: &S, st: State, lt: Tag, ts: Seq<TokenView>, used: Seq<bool>) -> Seq<u8> {
    let last = run_state(st, lt, ts).1;
    run_out(sch, st, lt, ts) + text_bytes(last.end_text(sch)) + css_block(
        sch,
        mark_used(last, run_used(st, lt, ts, used)),
    )
}

/// The HTML for a whole document in schema `sch`.
pub open spec fn render<S: Schema>(sch: &S, input: Seq<u8>) -> Seq<u8> {
    run_html(sch, State::Start, Tag::NoTag, tokens_of(input), no_used_tags())
}

proof fn lemma_run_ok_prefix(st: State, lt: Tag, ts: Seq<TokenView>, k: int)
    requires
        run_ok(st, lt, ts),
        0 <= k <= ts.len(),
    ensures
        run_ok(st, lt, ts.take(k)),
    decreases ts.len(),
{
    if k < ts.len() {
        assert(ts.drop_last().take(k) == ts.take(k));
        lemma_run_ok_prefix(st, lt, ts.drop_last(), k);
    } else {
        assert(ts.take(k) == ts);
    }
}

/// Turns a document into HTML.
pub trait Parser {
    /// Whether the document can be parsed to its end.
    spec fn can_parse(&self) -> bool;

    fn parse_and_write(&mut self) -> (r: Result<(), ParseError>)
        requires
            old(self).can_parse(),
    ;
}

/// Parses a document token by token, writing the HTML as it goes.
pub struct StatefulParser<'a, S, W> {
    tokenizer: Tokenizer<'a>,
    mapper: Mapper<S, W>,
    state: State,
    last_tag: Tag,
    record: Record,
}

impl<'a, S: Schema, W: HtmlWriter> StatefulParser<'a, S, W> {
    pub closed spec fn tokenizer_view(&self) -> Tokenizer<'a> {
        self.tokenizer
    }

    pub closed spec fn mapper_view(&self) -> Mapper<S, W> {
        self.mapper
    }

    pub closed spec fn state_view(&self) -> State {
        self.state
    }

    pub closed spec fn last_tag_view(&self) -> Tag {
        self.last_tag
    }

    /// The line and column reached.
    pub closed spec fn place(&self) -> (u32, u32) {
        (self.record.line_num, self.record.column_num)
    }

    /// The tokens still to come.
    pub open spec fn remaining(&self) -> Seq<TokenView> {
        self.tokenizer_view().remaining()
    }


    /// The line and column counts cannot overflow in what is left to read.
    pub open spec fn counts_fit(&self) -> bool {
        places_fit((self.place().0 as int, self.place().1 as int), self.remaining())
    }

    /// What a parser keeps to between calls: the tokenizer and the writer's
    /// used-tag table are well formed, the parser state keeps its invariant,
    /// and when the tokenizer stands at a line start, so does the parser.
    pub closed spec fn wf(&self) -> bool {
        &&& self.tokenizer.wf()
        &&& self.mapper.used_tags().len() == TAG_LEN
        &&& parser_inv(self.state, self.last_tag)
        &&& state_at_line_start(self.tokenizer.text(), self.tokenizer.position(), self.tokenizer.line_state())
        &&& line_coupled(self.tokenizer.line_state(), self.state)
    }

    pub fn new(r: &'a [u8], s: S, w: W) -> (p: Self)
        requires
            r@.len() <= u32::MAX,
        ensures
            p.tokenizer_view().wf(),
            p.tokenizer_view().text() == r@,
            p.tokenizer_view().position() == 0,
            p.remaining() == tokens_of(r@),
            p.mapper_view().schema_view() == s,
            p.mapper_view().writer_view() == w,
            p.state_view() == State::Start,
            p.last_tag_view() == Tag::NoTag,
            p.place() == (1u32, 0u32),
            w.used_tags().len() == TAG_LEN ==> p.wf(),
    {
        proof {
            lemma_tags_only_at_line_start(r@, 0, LineState::Start);
        }
        StatefulParser {
            record: Record::new(),
            tokenizer: Tokenizer::new(r),
            state: State::Start,
            last_tag: Tag::NoTag,
            mapper: Mapper::new(s, w),
        }
    }

    /// The mapper, which holds the writer.
    pub fn mapper(&self) -> (m: &Mapper<S, W>)
        ensures
            *m == self.mapper_view(),
    {
        &self.mapper
    }

    /// Gives back the writer.
    pub fn into_writer(self) -> (w: W)
        ensures
            w == self.mapper_view().writer_view(),
    {
        self.mapper.into_writer()
    }

    /// Closes an open header at a line break; says whether there was one.
    fn try_solve_header_end(&mut self) -> (r: bool)
        requires
            old(self).last_tag is Header ==> old(self).last_tag.has_index(),
        ensures
            r == old(self).last_tag is Header,
            final(self).tokenizer == old(self).tokenizer,
            final(self).record == old(self).record,
            final(self).mapper.schema_view() == old(self).mapper.schema_view(),
            final(self).mapper.used_tags() == old(self).mapper.used_tags(),
            r ==> final(self).state == State::Ln && final(self).last_tag == Tag::NoTag
                && final(self).mapper.written() == old(self).mapper.written() + part_bytes(
                &old(self).mapper.schema_view(),
                SchemaPart::HeaderEnd(old(self).last_tag->Header_0),
            ) + ln_bytes(),
            !r ==> final(self).state == old(self).state && final(self).last_tag == old(self).last_tag
                && final(self).mapper.written() == old(self).mapper.written(),
    {
        if let Tag::Header(level) = self.last_tag {
            self.mapper.write_header_end(level);
            self.state = State::Ln;
            self.last_tag = Tag::NoTag;
            true
        } else {
            false
        }
    }

    fn solve_end_and_start(&mut self, tag: Tag)
        requires
            old(self).last_tag.has_index(),
            tag.has_index(),
            old(self).mapper.used_tags().len() == TAG_LEN,
        ensures
            final(self).tokenizer == old(self).tokenizer,
            final(self).record == old(self).record,
            final(self).mapper.schema_view() == old(self).mapper.schema_view(),
            final(self).state == State::Tag(tag),
            final(self).last_tag == tag,
            final(self).mapper.written() == old(self).mapper.written() + text_bytes(
                old(self).last_tag.end_text(&old(self).mapper.schema_view()),
            ) + part_bytes(&old(self).mapper.schema_view(), tag.start_part()) + ln_bytes(),
            final(self).mapper.used_tags() == mark_used(old(self).last_tag, old(self).mapper.used_tags()),
    {
        self.solve_end();
        self.solve_start(tag)
    }

    fn solve_start(&mut self, tag: Tag)
        requires
            tag.has_index(),
        ensures
            final(self).tokenizer == old(self).tokenizer,
            final(self).record == old(self).record,
            final(self).mapper.schema_view() == old(self).mapper.schema_view(),
            final(self).state == State::Tag(tag),
            final(self).last_tag == tag,
            final(self).mapper.written() == old(self).mapper.written() + part_bytes(
                &old(self).mapper.schema_view(),
                tag.start_part(),
            ) + ln_bytes(),
            final(self).mapper.used_tags() == old(self).mapper.used_tags(),
    {
        self.mapper.write_tag_start(tag);
        self.state = State::Tag(tag);
        self.last_tag = tag;
    }

    /// Closes the open block; where none is open, nothing is written.
    fn solve_end(&mut self)
        requires
            old(self).last_tag.has_index() || old(self).last_tag == Tag::NoTag,
            old(self).mapper.used_tags().len() == TAG_LEN,
        ensures
            final(self).tokenizer == old(self).tokenizer,
            final(self).record == old(self).record,
            final(self).mapper.schema_view() == old(self).mapper.schema_view(),
            final(self).state == old(self).state,
            final(self).last_tag == Tag::NoTag,
            final(self).mapper.written() == old(self).mapper.written() + text_bytes(
                old(self).last_tag.end_text(&old(self).mapper.schema_view()),
            ),
            final(self).mapper.used_tags() == mark_used(old(self).last_tag, old(self).mapper.used_tags()),
    {
        self.mapper.write_tag_end(self.last_tag);
        self.last_tag = Tag::NoTag;
    }

    /// Takes one token: writes its HTML and moves to the next state.
    fn step(&mut self, token: Token<'a>)
        requires
            step_ok(old(self).state, old(self).last_tag, token@),
            old(self).mapper.used_tags().len() == TAG_LEN,
        ensures
            final(self).tokenizer == old(self).tokenizer,
            final(self).record == old(self).record,
            final(self).mapper.schema_view() == old(self).mapper.schema_view(),
            (final(self).state, final(self).last_tag) == step_next(
                old(self).state,
                old(self).last_tag,
                token@,
            ),
            final(self).mapper.written() == old(self).mapper.written() + step_out(
                &old(self).mapper.schema_view(),
                old(self).state,
                old(self).last_tag,
                token@,
            ),
            final(self).mapper.used_tags() == step_used(
                old(self).state,
                old(self).last_tag,
                token@,
                old(self).mapper.used_tags(),
            ),
    {
        match self.state {
            State::Start | State::Ln => match token {
                Token::Space => {
                    self.mapper.write_html_space();
                    self.state = State::PureText;
                },
                Token::Tab => {
                    self.mapper.write_html_tab();
                    self.state = State::PureText;
                },
                Token::Ln => {
                    self.mapper.write_br();
                    self.state = State::Ln;
                },
                Token::Tag(tag) => {
                    self.solve_start(tag);
                },
                Token::PureText { data, char_len: _char_len } => {
                    self.mapper.write(data);
                    self.state = State::PureText;
                },
            },
            State::PureText => match token {
                Token::Space => {
                    self.mapper.write_html_space();
                },
                Token::Tab => {
                    self.mapper.write_html_tab();
                },
                Token::Ln => {
                    self.mapper.write_br();
                    self.state = State::Ln;
                },
                Token::Tag(_tag) => {},
                Token::PureText { data, char_len: _char_len } => {
                    self.mapper.write(data);
                },
            },
            State::Tag(_) | State::Value => match token {
                Token::Space => {
                    self.mapper.write_html_space();
                    self.state = State::Value;
                },
                Token::Tab => {
                    self.mapper.write_html_tab();
                    self.state = State::Value;
                },
                Token::Ln => {
                    let is_header = self.try_solve_header_end();
                    if !is_header {
                        self.mapper.write_br();
                        self.state = State::BlockValueLn;
                    }
                },
                Token::Tag(_tag) => {},
                Token::PureText { data, char_len: _char_len } => {
                    self.mapper.write(data);
                    self.state = State::Value;
                },
            },
            State::BlockValueLn => match token {
                Token::Space => {
                    self.mapper.write_html_space();
                },
                Token::Tab => {
                    self.mapper.write_html_tab();
                },
                Token::Ln => {
                    self.solve_end();
                    self.state = State::Ln;
                },
                Token::Tag(tag) => {
                    self.solve_end_and_start(tag);
                },
                Token::PureText { data, char_len: _char_len } => {
                    self.mapper.write(data);
                    self.state = State::Value;
                },
            },
        }
    }
}

impl<'a, S: Schema, W: HtmlWriter> Parser for StatefulParser<'a, S, W> {
    open spec fn can_parse(&self) -> bool {
        &&& self.wf()
        &&& self.counts_fit()
    }

    /// Writes the HTML of every token still to come, closes the block left
    /// open and writes the style sheet.
    fn parse_and_write(&mut self) -> (r: Result<(), ParseError>)
        ensures
            r is Ok,
            final(self).mapper_view().schema_view() == old(self).mapper_view().schema_view(),
            final(self).mapper_view().written() == old(self).mapper_view().written() + run_html(
                &old(self).mapper_view().schema_view(),
                old(self).state_view(),
                old(self).last_tag_view(),
                old(self).remaining(),
                old(self).mapper_view().used_tags(),
            ),
            final(self).mapper_view().used_tags() == no_used_tags(),
            final(self).remaining() == Seq::<TokenView>::empty(),
            final(self).tokenizer_view().position() == final(self).tokenizer_view().text().len(),
            (final(self).place().0 as int, final(self).place().1 as int) == place_after(
                (old(self).place().0 as int, old(self).place().1 as int),
                old(self).remaining(),
            ),
    {
        let ghost pl0 = (self.record.line_num as int, self.record.column_num as int);
        let ghost all = self.tokenizer.remaining();
        let ghost st0 = self.state;
        let ghost lt0 = self.last_tag;
        let ghost w0 = self.mapper.written();
        let ghost u0 = self.mapper.used_tags();
        let ghost sch = self.mapper.schema_view();
        let ghost text0 = self.tokenizer.text();
        let ghost mut done: Seq<TokenView> = Seq::empty();
        proof {
            self.tokenizer.lemma_wf();
            lemma_tokens_parse(
                text0,
                self.tokenizer.position(),
                self.tokenizer.line_state(),
                st0,
                lt0,
            );
        }
        assert(all == done + all);
        loop
            invariant
                parser_inv(st0, lt0),
                all == old(self).remaining(),
                st0 == old(self).state,
                lt0 == old(self).last_tag,
                w0 == old(self).mapper.written(),
                u0 == old(self).mapper.used_tags(),
                sch == old(self).mapper.schema_view(),
                pl0 == (old(self).record.line_num as int, old(self).record.column_num as int),
                (self.record.line_num as int, self.record.column_num as int) == place_after(pl0, done),
                self.tokenizer.wf(),
                self.tokenizer.text() == text0,
                all == done + self.tokenizer.remaining(),
                run_ok(st0, lt0, all),
                (self.state, self.last_tag) == run_state(st0, lt0, done),
                self.mapper.schema_view() == sch,
                self.mapper.written() == w0 + run_out(&sch, st0, lt0, done),
                self.mapper.used_tags() == run_used(st0, lt0, done, u0),
                self.mapper.used_tags().len() == TAG_LEN,
                places_fit(pl0, all),
            decreases text0.len() - self.tokenizer.position(),
        {
            proof {
                self.tokenizer.lemma_wf();
                lemma_next_token_progress(text0, self.tokenizer.position(), self.tokenizer.line_state());
            }
            let ghost p0 = self.tokenizer.position();
            match self.tokenizer.next() {
                Some(token) => {
                    let ghost next_done = done.push(token@);
                    proof {
                        assert(next_done.drop_last() == done);
                        assert(all.take(next_done.len() as int) == next_done);
                        lemma_run_ok_prefix(st0, lt0, all, next_done.len() as int);
                        assert(place_fits(place_after(pl0, all.take(next_done.len() as int))));
                    }
                    self.record.update_nums(token.char_len());
                    self.step(token);
                    proof {
                        done = next_done;
                        assert(all == done + self.tokenizer.remaining());
                    }
                },
                None => {
                    proof {
                        assert(all == done);
                        lemma_run_keeps_inv(st0, lt0, done);
                    }
                    self.solve_end();
                    self.mapper.write_css();
                    return Ok(());
                },
            }
        }
    }
}

impl<'a, S: Schema, W: HtmlWriter> StatefulParser<'a, S, W> {
    /// Whether `parse_and_write` can run to the end of the document: the
    /// line and column counts fit in what is left to read.
    pub fn can_complete(&self) -> (r: bool)
        requires
            self.wf(),
        ensures
            r == self.can_parse(),
    {
        let mut t = self.tokenizer;
        let mut line: u64 = self.record.line_num as u64;
        let mut column: u64 = self.record.column_num as u64;
        let ghost pl0 = (self.record.line_num as int, self.record.column_num as int);
        let ghost all = self.tokenizer.remaining();
        let ghost mut done: Seq<TokenView> = Seq::empty();
        assert(all == done + all);
        assert(all.take(0) == done);
        loop
            invariant
                all == self.remaining(),
                pl0 == (self.place().0 as int, self.place().1 as int),
                self.wf(),
                t.wf(),
                t.text() == self.tokenizer.text(),
                all == done + t.remaining(),
                (line as int, column as int) == place_after(pl0, done),
                line <= u32::MAX,
                column <= u32::MAX,
                forall|k: int| 0 <= k <= done.len() ==> #[trigger] place_fits(place_after(pl0, done.take(k))),
            decreases t.text().len() - t.position(),
        {
            proof {
                t.lemma_wf();
                lemma_next_token_progress(t.text(), t.position(), t.line_state());
            }
            match t.next() {
                Some(tok) => {
                    let ghost next_done = done.push(tok@);
                    proof {
                        assert(next_done.drop_last() == done);
                        assert(all.take(next_done.len() as int) == next_done);
                    }
                    let w = tok.char_len();
                    if w == 0 {
                        line = line + 1;
                        column = 0;
                    } else {
                        column = column + w as u64;
                    }
                    if line > u32::MAX as u64 || column > u32::MAX as u64 {
                        proof {
                            assert(!place_fits(place_after(pl0, all.take(next_done.len() as int))));
                        }
                        return false;
                    }
                    proof {
                        assert forall|k: int| 0 <= k <= next_done.len() implies #[trigger] place_fits(
                            place_after(pl0, next_done.take(k)),
                        ) by {
                            if k < next_done.len() {
                                assert(next_done.take(k) == done.take(k));
                            } else {
                                assert(next_done.take(k) == next_done);
                            }
                        }
                        done = next_done;
                        assert(all == done + t.remaining());
                    }
                },
                None => {
                    proof {
                        assert(all == done);
                        assert forall|k: int| 0 <= k <= all.len() implies #[trigger] place_fits(
                            place_after(pl0, all.take(k)),
                        ) by {
                            assert(all.take(k) == done.take(k));
                        }
                    }
                    return true;
                },
            }
        }
    }
}

/// What holds of every state the parser reaches from the start: outside a
/// block no block is open; in a block, the open block is a real one; after a
/// line break inside a block, that block is not a header (headers end with
/// their line).
pub open spec fn parser_inv(st: State, lt: Tag) -> bool {
    match st {
        State::Start | State::Ln | State::PureText => lt == Tag::NoTag,
        State::Tag(t) => lt == t && t.has_index(),
        State::Value => lt.has_index(),
        State::BlockValueLn => lt.has_index() && !(lt is Header),
    }
}

/// The parser starts in a state that keeps its invariant, and every token it
/// can take leads to such a state again.
pub proof fn lemma_parser_inv_preserved(st: State, lt: Tag, t: TokenView)
    ensures
        parser_inv(State::Start, Tag::NoTag),
        parser_inv(st, lt) && step_ok(st, lt, t) ==> parser_inv(step_next(st, lt, t).0, step_next(st, lt, t).1),
{
}

/// In every state the parser reaches, it takes every token except a block
/// tag in the middle of a line (and a tag that is no real block); after a
/// line break it stands at the start of a line, where it takes any real
/// block tag.
pub proof fn lemma_parser_accepts(st: State, lt: Tag, t: TokenView)
    requires
        parser_inv(st, lt),
    ensures
        step_ok(st, lt, t) <==> (t matches TokenView::Tag(tag) ==> tag.has_index() && (st == State::Start
            || st == State::Ln || st == State::BlockValueLn)),
        step_ok(st, lt, TokenView::Ln) ==> (step_next(st, lt, TokenView::Ln).0 == State::Ln || step_next(
            st,
            lt,
            TokenView::Ln,
        ).0 == State::BlockValueLn),
{
}

/// The state reached after any tokens the parser can take keeps the
/// invariant.
pub proof fn lemma_run_keeps_inv(st0: State, lt0: Tag, ts: Seq<TokenView>)
    requires
        parser_inv(st0, lt0),
        run_ok(st0, lt0, ts),
    ensures
        parser_inv(run_state(st0, lt0, ts).0, run_state(st0, lt0, ts).1),
    decreases ts.len(),
{
    if ts.len() > 0 {
        lemma_run_keeps_inv(st0, lt0, ts.drop_last());
        let (st, lt) = run_state(st0, lt0, ts.drop_last());
        lemma_parser_inv_preserved(st, lt, ts.last());
    }
}

/// Taking a token and then the rest is taking the whole sequence.
proof fn lemma_run_cons(st: State, lt: Tag, t: TokenView, rest: Seq<TokenView>)
    ensures
        run_state(st, lt, seq![t] + rest) == run_state(step_next(st, lt, t).0, step_next(st, lt, t).1, rest),
        run_ok(st, lt, seq![t] + rest) == (step_ok(st, lt, t) && run_ok(
            step_next(st, lt, t).0,
            step_next(st, lt, t).1,
            rest,
        )),
    decreases rest.len(),
{
    let (st1, lt1) = step_next(st, lt, t);
    let whole = seq![t] + rest;
    if rest.len() == 0 {
        assert(whole.drop_last() == Seq::<TokenView>::empty());
        assert(whole.last() == t);
        assert(run_state(st, lt, whole.drop_last()) == (st, lt));
        assert(run_ok(st, lt, whole.drop_last()));
        assert(run_state(st1, lt1, rest) == (st1, lt1));
        assert(run_ok(st1, lt1, rest));
        assert(run_state(st, lt, whole) == step_next(st, lt, t));
        assert(run_ok(st, lt, whole) == step_ok(st, lt, t));
    } else {
        assert(whole.drop_last() == seq![t] + rest.drop_last());
        assert(whole.last() == rest.last());
        lemma_run_cons(st, lt, t, rest.drop_last());
        assert(run_state(st, lt, whole) == run_state(st1, lt1, rest));
    }
}

/// When the tokenizer stands at a line start, the parser stands at one too.
pub open spec fn line_coupled(tst: LineState, st: State) -> bool {
    (tst == LineState::Start || tst == LineState::LineFeed) ==> (st == State::Start || st == State::Ln
        || st == State::BlockValueLn)
}

proof fn lemma_tokens_parse(s: Seq<u8>, p: int, tst: LineState, st: State, lt: Tag)
    requires
        0 <= p <= s.len(),
        s.len() <= u32::MAX,
        state_fits(tst, p),
        parser_inv(st, lt),
        state_at_line_start(s, p, tst),
        line_coupled(tst, st),
    ensures
        run_ok(st, lt, tokens_from(s, p, tst)),
    decreases s.len() - p,
{
    lemma_next_token_progress(s, p, tst);
    lemma_tags_only_at_line_start(s, p, tst);
    crate::tokenizer::lemma_tokens_from_unfold(s, p, tst);
    match next_token(s, p, tst) {
        None => {},
        Some((t, p2, tst2)) => {
            lemma_parser_accepts(st, lt, t);
            assert(step_ok(st, lt, t));
            let (st2, lt2) = step_next(st, lt, t);
            lemma_parser_inv_preserved(st, lt, t);
            lemma_run_cons(st, lt, t, tokens_from(s, p2, tst2));
            if p2 < s.len() {
                lemma_tokens_parse(s, p2, tst2, st2, lt2);
            } else {
                crate::tokenizer::lemma_tokens_from_unfold(s, p2, tst2);
            }
        },
    }
}

/// The parser takes every token the tokenizer gives for any document: block
/// tags come only at line starts, where the parser accepts them.
pub proof fn lemma_document_parses(s: Seq<u8>)
    requires
        s.len() <= u32::MAX,
    ensures
        run_ok(State::Start, Tag::NoTag, tokens_of(s)),
{
    lemma_parser_inv_preserved(State::Start, Tag::NoTag, TokenView::Ln);
    lemma_tags_only_at_line_start(s, 0, LineState::Start);
    lemma_tokens_parse(s, 0, LineState::Start, State::Start, Tag::NoTag);
}

/// A token of width 0 is a line break for the line and column counts.
pub open spec fn is_break(t: TokenView) -> bool {
    t.spec_char_len() == 0
}

/// The widths of the tokens `ts`, summed.
pub open spec fn width_sum(ts: Seq<TokenView>) -> int
    decreases ts.len(),
{
    if ts.len() == 0 {
        0
    } else {
        width_sum(ts.drop_last()) + ts.last().spec_char_len()
    }
}

/// `k` is where the last line of `ts` starts: right after the last line
/// break, or at 0 when there is none.
pub open spec fn starts_last_line(ts: Seq<TokenView>, k: int) -> bool {
    &&& 0 <= k <= ts.len()
    &&& k == 0 || is_break(ts[k - 1])
    &&& forall|j: int| k <= j < ts.len() ==> !is_break(#[trigger] ts[j])
}

/// The line and column counts after the tokens `ts`, from line 1 column 0,
/// in closed form: the line is one more than the number of line breaks, and
/// the column is the sum of the widths after the last line break (of all
/// widths when there is none).
pub proof fn lemma_place_closed_form(ts: Seq<TokenView>, k: int)
    requires
        starts_last_line(ts, k),
    ensures
        place_after((1, 0), ts) == ((1 + ts.filter(|t: TokenView| is_break(t)).len()) as int, width_sum(
            ts.skip(k),
        )),
    decreases ts.len(),
{
    reveal_with_fuel(Seq::<_>::filter, 1);
    if ts.len() == 0 {
        assert(ts.skip(k) =~= ts);
    } else if is_break(ts.last()) {
        lemma_last_line_start(ts.drop_last());
        let k2 = choose|k2: int| #[trigger] starts_last_line(ts.drop_last(), k2);
        lemma_place_closed_form(ts.drop_last(), k2);
        assert(k == ts.len());
        assert(ts.skip(k) =~= Seq::<TokenView>::empty());
    } else {
        assert(k < ts.len());
        assert(starts_last_line(ts.drop_last(), k)) by {
            assert forall|j: int| k <= j < ts.drop_last().len() implies !is_break(
                #[trigger] ts.drop_last()[j],
            ) by {
                assert(ts.drop_last()[j] == ts[j]);
            }
            if k > 0 {
                assert(ts.drop_last()[k - 1] == ts[k - 1]);
            }
        }
        lemma_place_closed_form(ts.drop_last(), k);
        assert(ts.skip(k).drop_last() =~= ts.drop_last().skip(k));
        assert(ts.skip(k).last() == ts.last());
    }
}

/// Every token sequence has a start for its last line.
proof fn lemma_last_line_start(ts: Seq<TokenView>)
    ensures
        exists|k: int| #[trigger] starts_last_line(ts, k),
    decreases ts.len(),
{
    if ts.len() == 0 {
        assert(starts_last_line(ts, 0));
    } else if is_break(ts.last()) {
        assert(starts_last_line(ts, ts.len() as int));
    } else {
        lemma_last_line_start(ts.drop_last());
        let k = choose|k: int| #[trigger] starts_last_line(ts.drop_last(), k);
        assert forall|j: int| k <= j < ts.len() implies !is_break(#[trigger] ts[j]) by {
            if j < ts.len() - 1 {
                assert(ts[j] == ts.drop_last()[j]);
            }
        }
        if k > 0 {
            assert(ts[k - 1] == ts.drop_last()[k - 1]);
        }
        assert(starts_last_line(ts, k));
    }
}

/// A line break at a line start, outside any block, writes exactly `<br>`
/// and a line feed, leaves any open block and the used-tag table as they
/// are, and leaves the parser at a line start: so in a document, each such
/// line break (a blank line among them) adds `<br>\n` to the HTML.
pub proof fn lemma_line_break_at_line_start<S: Schema>(
    sch: &S,
    st0: State,
    lt0: Tag,
    ts: Seq<TokenView>,
    used: Seq<bool>,
)
    requires
        run_state(st0, lt0, ts).0 == State::Start || run_state(st0, lt0, ts).0 == State::Ln,
    ensures
        run_out(sch, st0, lt0, ts.push(TokenView::Ln)) == run_out(sch, st0, lt0, ts) + seq![
            60u8,
            98,
            114,
            62,
            10,
        ],
        run_state(st0, lt0, ts.push(TokenView::Ln)) == (State::Ln, run_state(st0, lt0, ts).1),
        run_used(st0, lt0, ts.push(TokenView::Ln), used) == run_used(st0, lt0, ts, used),
{
    lemma_fixed_bytes();
    assert(ts.push(TokenView::Ln).drop_last() == ts);
    assert(seq![60u8, 98, 114, 62] + seq![10u8] =~= seq![60u8, 98, 114, 62, 10]);
}

/// The bytes a space, tab or text token stands for: `&nbsp;`, four of them,
/// or the text itself.
pub open spec fn own_bytes(t: TokenView) -> Seq<u8> {
    match t {
        TokenView::Space => seq![38u8, 110, 98, 115, 112, 59],
        TokenView::Tab => seq![38u8, 110, 98, 115, 112, 59, 38, 110, 98, 115, 112, 59, 38, 110, 98, 115, 112, 59, 38, 110, 98, 115, 112, 59],
        TokenView::PureText { data, .. } => data,
        _ => Seq::empty(),
    }
}

/// A space, tab or text token never closes or changes the open block: in
/// every state it writes only its own bytes, the open block stays open
/// (and stays the same), no kind of block is marked used, and inside a
/// block the parser stays inside it. After the line break inside a block,
/// spaces and tabs keep the line blank (a further line break closes the
/// block), while text continues the block on that line. Only a line break,
/// a block tag or the end of the document close a block.
pub proof fn lemma_text_keeps_block<S: Schema>(sch: &S, st: State, lt: Tag, t: TokenView, used: Seq<bool>)
    requires
        t is Space || t is Tab || t is PureText,
    ensures
        step_out(sch, st, lt, t) == own_bytes(t),
        step_next(st, lt, t).1 == lt,
        step_used(st, lt, t, used) == used,
        (st is Tag || st == State::Value || st == State::BlockValueLn) ==> (step_next(st, lt, t).0
            == State::Value || step_next(st, lt, t).0 == State::BlockValueLn),
        !(st is Tag || st == State::Value || st == State::BlockValueLn) ==> step_next(st, lt, t).0
            == State::PureText,
        st == State::BlockValueLn && !(t is PureText) ==> step_next(st, lt, t).0 == State::BlockValueLn,
        (st is Tag || st == State::Value || (st == State::BlockValueLn && t is PureText)) ==> step_next(
            st,
            lt,
            t,
        ).0 == State::Value,
{
    lemma_fixed_bytes();
    let sp = seq![38u8, 110, 98, 115, 112, 59];
    assert(sp + sp + sp + sp =~= seq![38u8, 110, 98, 115, 112, 59, 38, 110, 98, 115, 112, 59, 38, 110, 98, 115, 112, 59, 38, 110, 98, 115, 112, 59]);
}

/// What a line break does in each place of the parser: at a line start or
/// after plain text it writes `<br>\n`; ending the line of a header it
/// writes the header's end markup and a line feed, closes the header
/// (without marking it used) and returns to a line start; ending a line
/// inside another block it writes `<br>\n` and keeps the block open; and on
/// a blank line inside a block it writes the block's end markup, marks the
/// block used and closes it.
pub proof fn lemma_line_break_effects<S: Schema>(sch: &S, st: State, lt: Tag, used: Seq<bool>)
    requires
        parser_inv(st, lt),
    ensures
        (st == State::Start || st == State::Ln || st == State::PureText) ==> step_out(
            sch,
            st,
            lt,
            TokenView::Ln,
        ) == seq![60u8, 98, 114, 62, 10] && step_next(st, lt, TokenView::Ln) == (State::Ln, lt)
            && step_used(st, lt, TokenView::Ln, used) == used,
        (st is Tag || st == State::Value) && lt is Header ==> step_out(
            sch,
            st,
            lt,
            TokenView::Ln,
        ) == part_bytes(sch, SchemaPart::HeaderEnd(lt->Header_0)) + seq![10u8] && step_next(
            st,
            lt,
            TokenView::Ln,
        ) == (State::Ln, Tag::NoTag) && step_used(st, lt, TokenView::Ln, used) == used,
        (st is Tag || st == State::Value) && !(lt is Header) ==> step_out(sch, st, lt, TokenView::Ln)
            == seq![60u8, 98, 114, 62, 10] && step_next(st, lt, TokenView::Ln) == (
            State::BlockValueLn,
            lt,
        ) && step_used(st, lt, TokenView::Ln, used) == used,
        st == State::BlockValueLn ==> step_out(sch, st, lt, TokenView::Ln) == text_bytes(
            sch.text(lt.end_part()),
        ) && step_next(st, lt, TokenView::Ln) == (State::Ln, Tag::NoTag) && step_used(
            st,
            lt,
            TokenView::Ln,
            used,
        ) == used.update(lt.spec_index(), true),
{
    lemma_fixed_bytes();
    assert(seq![60u8, 98, 114, 62] + seq![10u8] =~= seq![60u8, 98, 114, 62, 10]);
}

/// What a block tag at a line start does: it writes the schema's start
/// markup of the block and a line feed, and the block is then open; where
/// a block was still open (after a line break inside it), that block's end
/// markup comes first and it is marked used.
pub proof fn lemma_block_tag_effects<S: Schema>(sch: &S, st: State, lt: Tag, tag: Tag, used: Seq<bool>)
    requires
        parser_inv(st, lt),
        st == State::Start || st == State::Ln || st == State::BlockValueLn,
        tag.has_index(),
    ensures
        step_next(st, lt, TokenView::Tag(tag)) == (State::Tag(tag), tag),
        st != State::BlockValueLn ==> step_out(sch, st, lt, TokenView::Tag(tag)) == part_bytes(
            sch,
            tag.start_part(),
        ) + seq![10u8] && step_used(st, lt, TokenView::Tag(tag), used) == used,
        st == State::BlockValueLn ==> step_out(sch, st, lt, TokenView::Tag(tag)) == text_bytes(
            sch.text(lt.end_part()),
        ) + part_bytes(sch, tag.start_part()) + seq![10u8] && step_used(
            st,
            lt,
            TokenView::Tag(tag),
            used,
        ) == used.update(lt.spec_index(), true),
{
    lemma_fixed_bytes();
}

} // verus!
