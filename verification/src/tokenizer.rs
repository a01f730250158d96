use crate::tag::decimal;
use crate::tag::push_decimal;
use crate::tag::Tag;
use crate::BLOCK_QUOTE_TAG;
use crate::HEADER_TAG;
use vstd::prelude::*;
use vstd::slice::slice_subrange;

verus! {

pub const BACKSLASH: u8 = 92;
pub const SPACE: u8 = 32;
pub const TAB: u8 = 9;
pub const LINE_FEED: u8 = 10;
pub const CARRIAGE_RETURN: u8 = 13;
pub const DASH: u8 = 45;
pub const OPEN_BRACKET: u8 = 91;
pub const CLOSE_BRACKET: u8 = 93;
pub const LOWER_X: u8 = 120;

/// One lexical unit of a Markdown document.
#[derive(Clone, Copy, PartialEq, Eq, Debug)]
pub enum Token<'a> {
    Space,
    Tab,
    Ln,
    Tag(Tag),
    /// Text to copy as it is; `char_len` is the width it takes up in its line.
    PureText { data: &'a [u8], char_len: u32 },
}

/// A token, with its text as a sequence of bytes.
pub enum TokenView {
    Space,
    Tab,
    Ln,
    Tag(Tag),
    PureText { data: Seq<u8>, char_len: u32 },
}

impl<'a> View for Token<'a> {
    type V = TokenView;

    open spec fn view(&self) -> TokenView {
        match *self {
            Token::Space => TokenView::Space,
            Token::Tab => TokenView::Tab,
            Token::Ln => TokenView::Ln,
            Token::Tag(t) => TokenView::Tag(t),
            Token::PureText { data, char_len } => TokenView::PureText { data: data@, char_len },
        }
    }
}

impl TokenView {
    pub open spec fn spec_char_len(self) -> int {
        match self {
            TokenView::Space => 1,
            TokenView::Tab => 1,
            TokenView::Ln => 0,
            TokenView::PureText { data, char_len } => char_len as int,
            TokenView::Tag(tag) => tag.spec_char_len(),
        }
    }
}

impl<'a> Token<'a> {
    pub fn char_len(self) -> (r: u32)
        ensures
            r == self@.spec_char_len(),
    {
        match self {
            Token::Space => 1,
            Token::Tab => 1,
            Token::Ln => 0,
            Token::PureText { data: _data, char_len } => char_len,
            Token::Tag(tag) => tag.char_len(),
        }
    }
}

/// Where the tokenizer stands relative to the start of a line.
#[derive(Clone, Copy, PartialEq, Eq, Debug)]
pub enum State {
    Start,
    LineFeed,
    /// After a run of tabs; counts them.
    Tab(u32),
    Other,
}

/// How many bytes a UTF-8 character takes, read off its first byte. A byte
/// that cannot start a longer character (a continuation byte, for one)
/// stands for itself; the bytes that follow a lead byte are not checked.
/// Documents are meant to be UTF-8.
pub open spec fn lead_width(b: u8) -> int {
    if b < 0xC0 {
        1
    } else if b < 0xE0 {
        2
    } else if b < 0xF0 {
        3
    } else {
        4
    }
}

/// Where the character that starts at `p` ends; a character cut off by the
/// end of the input ends there.
pub open spec fn chr_end(s: Seq<u8>, p: int) -> int {
    if p + lead_width(s[p]) <= s.len() {
        p + lead_width(s[p])
    } else {
        s.len() as int
    }
}

/// The number of `#` bytes in a row from `p`, but at most `cap`.
pub open spec fn hash_run(s: Seq<u8>, p: int, cap: nat) -> nat
    decreases cap,
{
    if cap == 0 || p < 0 || p >= s.len() || s[p] != HEADER_TAG {
        0
    } else {
        1 + hash_run(s, p + 1, (cap - 1) as nat)
    }
}

/// Whether `b` fits place `i` of the task marker ` [?] ` that follows a dash,
/// where `?` is a space or an `x`.
pub open spec fn task_byte_ok(b: u8, i: int) -> bool {
    if i == 0 {
        b == SPACE
    } else if i == 1 {
        b == OPEN_BRACKET
    } else if i == 2 {
        b == SPACE || b == LOWER_X
    } else if i == 3 {
        b == CLOSE_BRACKET
    } else {
        b == SPACE
    }
}

/// How many places of the task marker match, from place `i` at position `q`.
pub open spec fn task_run(s: Seq<u8>, q: int, i: int) -> nat
    decreases 5 - i,
{
    if i < 0 || i >= 5 || q < 0 || q >= s.len() || !task_byte_ok(s[q], i) {
        0
    } else {
        1 + task_run(s, q + 1, i + 1)
    }
}

/// A single character as plain text.
pub open spec fn plain_token(s: Seq<u8>, p: int) -> Option<(TokenView, int, State)> {
    Some((TokenView::PureText { data: s.subrange(p, p + 1), char_len: 1 }, p + 1, State::Other))
}

/// A line that starts with `#`: a header of as many levels as there are `#`,
/// when a space or the end of the input follows them; else plain text.
pub open spec fn header_token(s: Seq<u8>, p: int) -> Option<(TokenView, int, State)> {
    let k = hash_run(s, p, 7) as int;
    if k == 7 {
        Some((TokenView::PureText { data: s.subrange(p, p + 7), char_len: 13 }, p + 7, State::Other))
    } else if p + k == s.len() {
        Some((TokenView::Tag(Tag::Header(k as u8)), p + k, State::Other))
    } else if s[p + k] == SPACE {
        Some((TokenView::Tag(Tag::Header(k as u8)), p + k + 1, State::Other))
    } else {
        let e = chr_end(s, p + k);
        Some((
            TokenView::PureText { data: s.subrange(p, e), char_len: (2 * k + (e - (p + k))) as u32 },
            e,
            State::Other,
        ))
    }
}

/// A line that starts with `>`: a block quote when a space follows.
pub open spec fn quote_token(s: Seq<u8>, p: int) -> Option<(TokenView, int, State)> {
    if p + 1 >= s.len() {
        plain_token(s, p)
    } else if s[p + 1] == SPACE {
        Some((TokenView::Tag(Tag::BlockQuote), p + 2, State::Other))
    } else {
        let e = chr_end(s, p + 1);
        Some((
            TokenView::PureText { data: s.subrange(p, e), char_len: (2 + (e - (p + 1))) as u32 },
            e,
            State::Other,
        ))
    }
}

/// A line that starts with `-`: a task list entry when ` [ ] ` or ` [x] `
/// follows; plain text up to the first byte that does not fit; and the end
/// of the token stream when the input ends inside the marker.
pub open spec fn task_token(s: Seq<u8>, p: int) -> Option<(TokenView, int, State)> {
    let m = task_run(s, p + 1, 0) as int;
    if m == 5 {
        Some((TokenView::Tag(Tag::TaskList(s[p + 3] == LOWER_X)), p + 6, State::Other))
    } else if p + 1 + m >= s.len() {
        None
    } else {
        let e = chr_end(s, p + 1 + m);
        Some((
            TokenView::PureText {
                data: s.subrange(p, e),
                char_len: (2 + m + (e - (p + 1 + m))) as u32,
            },
            e,
            State::Other,
        ))
    }
}

/// The token at position `p` of `s` when the tokenizer is in state `st`:
/// the token, the position after it and the state after it; `None` when
/// the token stream ends there.
pub open spec fn next_token(s: Seq<u8>, p: int, st: State) -> Option<(TokenView, int, State)> {
    if p < 0 || p >= s.len() {
        None
    } else {
        let b = s[p];
        if b >= 0xC0 {
            let e = chr_end(s, p);
            Some((TokenView::PureText { data: s.subrange(p, e), char_len: 1 }, e, State::Other))
        } else if b == BACKSLASH {
            if p + 1 >= s.len() {
                None
            } else {
                let e = chr_end(s, p + 1);
                Some((TokenView::PureText { data: s.subrange(p + 1, e), char_len: 1 }, e, State::Other))
            }
        } else if b == SPACE {
            Some((TokenView::Space, p + 1, State::Other))
        } else if b == TAB {
            Some((
                TokenView::Tab,
                p + 1,
                State::Tab(
                    match st {
                        State::Tab(n) => (n + 1) as u32,
                        _ => 1,
                    },
                ),
            ))
        } else if b == LINE_FEED {
            Some((TokenView::Ln, p + 1, State::LineFeed))
        } else if b == CARRIAGE_RETURN {
            if p + 1 >= s.len() {
                Some((TokenView::Ln, p + 1, st))
            } else if s[p + 1] == LINE_FEED {
                Some((TokenView::Ln, p + 2, State::LineFeed))
            } else {
                Some((TokenView::Ln, p + 1, State::LineFeed))
            }
        } else if st == State::LineFeed || st == State::Start {
            if b == HEADER_TAG {
                header_token(s, p)
            } else if b == BLOCK_QUOTE_TAG {
                quote_token(s, p)
            } else if b == DASH {
                task_token(s, p)
            } else {
                plain_token(s, p)
            }
        } else {
            plain_token(s, p)
        }
    }
}

/// All tokens from position `p` on, in state `st`.
pub open spec fn tokens_from(s: Seq<u8>, p: int, st: State) -> Seq<TokenView>
    decreases s.len() - p,
{
    match next_token(s, p, st) {
        None => Seq::empty(),
        Some((t, p2, st2)) => if p < p2 <= s.len() {
            seq![t] + tokens_from(s, p2, st2)
        } else {
            Seq::empty()
        },
    }
}

/// The tokens of a whole document.
pub open spec fn tokens_of(s: Seq<u8>) -> Seq<TokenView> {
    tokens_from(s, 0, State::Start)
}


proof fn lemma_hash_run_bounds(s: Seq<u8>, p: int, cap: nat)
    requires
        0 <= p <= s.len(),
    ensures
        hash_run(s, p, cap) <= cap,
        p + hash_run(s, p, cap) <= s.len(),
        p < s.len() && s[p] == HEADER_TAG && cap > 0 ==> hash_run(s, p, cap) >= 1,
        forall|j: int| p <= j < p + hash_run(s, p, cap) ==> s[j] == HEADER_TAG,
    decreases cap,
{
    if cap == 0 || p >= s.len() || s[p] != HEADER_TAG {
    } else {
        lemma_hash_run_bounds(s, p + 1, (cap - 1) as nat);
    }
}

/// A run of exactly `k` `#` bytes (stopped by the cap, the end of input or
/// another byte) has `hash_run` equal to `k`.
proof fn lemma_hash_run_exact(s: Seq<u8>, p: int, cap: nat, k: nat)
    requires
        0 <= p,
        k <= cap,
        p + k <= s.len(),
        forall|j: int| p <= j < p + k ==> s[j] == HEADER_TAG,
        k == cap || p + k == s.len() || s[p + k] != HEADER_TAG,
    ensures
        hash_run(s, p, cap) == k,
    decreases k,
{
    if k > 0 {
        lemma_hash_run_exact(s, p + 1, (cap - 1) as nat, (k - 1) as nat);
    }
}

proof fn lemma_task_run_bounds(s: Seq<u8>, q: int, i: int)
    requires
        0 <= q <= s.len(),
        0 <= i <= 5,
    ensures
        i + task_run(s, q, i) <= 5,
        q + task_run(s, q, i) <= s.len(),
    decreases 5 - i,
{
    if i >= 5 || q >= s.len() || !task_byte_ok(s[q], i) {
    } else {
        lemma_task_run_bounds(s, q + 1, i + 1);
    }
}

/// `m` places of the marker in a row that fit, stopped by the end of the
/// marker, the end of input or a byte that does not fit, give `task_run` `m`.
proof fn lemma_task_run_exact(s: Seq<u8>, q: int, i: int, m: nat)
    requires
        0 <= q,
        0 <= i,
        i + m <= 5,
        q + m <= s.len(),
        forall|k: int| #![trigger s[k]] q <= k < q + m ==> task_byte_ok(s[k], i + (k - q)),
        i + m == 5 || q + m == s.len() || !task_byte_ok(s[q + m], i + m),
    ensures
        task_run(s, q, i) == m,
    decreases m,
{
    if m > 0 {
        assert(task_byte_ok(s[q], i + (q - q)));
        lemma_task_run_exact(s, q + 1, i + 1, (m - 1) as nat);
    }
}

/// Whether a state's tab count stays within the bytes read so far.
pub open spec fn state_fits(st: State, p: int) -> bool {
    match st {
        State::Tab(n) => n <= p,
        _ => true,
    }
}

/// Each token takes at least one byte and stays within the input, its width
/// is at most twice the bytes it takes, every block it opens is a real one,
/// and a tab count stays within the bytes read.
pub proof fn lemma_next_token_progress(s: Seq<u8>, p: int, st: State)
    requires
        0 <= p <= s.len(),
        s.len() <= u32::MAX,
        state_fits(st, p),
    ensures
        next_token(s, p, st) matches Some((t, p2, st2)) ==> {
            &&& p < p2 <= s.len()
            &&& 0 <= t.spec_char_len() <= 2 * (p2 - p)
            &&& (t matches TokenView::Tag(tag) ==> tag.has_index())
            &&& (t matches TokenView::PureText { data, char_len } ==> data.len() > 0)
            &&& state_fits(st2, p2)
        },
{
    if p < s.len() {
        let b = s[p];
        if b >= 0xC0 {
        } else if b == BACKSLASH {
        } else if b == SPACE || b == TAB || b == LINE_FEED || b == CARRIAGE_RETURN {
        } else if st == State::LineFeed || st == State::Start {
            if b == HEADER_TAG {
                lemma_hash_run_bounds(s, p, 7);
            } else if b == BLOCK_QUOTE_TAG {
            } else if b == DASH {
                lemma_task_run_bounds(s, p + 1, 0);
            }
        }
    }
}

/// Position `p` starts a line: the start of the document, or just after a
/// line feed or carriage return.
pub open spec fn is_line_start(s: Seq<u8>, p: int) -> bool {
    p == 0 || (p > 0 && (s[p - 1] == LINE_FEED || s[p - 1] == CARRIAGE_RETURN))
}

/// The tokenizer is at a line start in state `Start` or `LineFeed` (or has
/// read the whole document).
pub open spec fn state_at_line_start(s: Seq<u8>, p: int, st: State) -> bool {
    (st == State::Start ==> p == 0 || p >= s.len())
        && (st == State::LineFeed ==> is_line_start(s, p) || p >= s.len())
}

/// Block tags are only recognised at the start of a line: a tag token comes
/// only in state `Start` or `LineFeed`, and the tokenizer is in those states
/// only at the start of the document or right after a line break; each token
/// keeps that so.
pub proof fn lemma_tags_only_at_line_start(s: Seq<u8>, p: int, st: State)
    requires
        state_at_line_start(s, p, st),
    ensures
        state_at_line_start(s, 0, State::Start),
        next_token(s, p, st) matches Some((TokenView::Tag(_), _, _)) ==> (st == State::Start
            || st == State::LineFeed) && is_line_start(s, p),
        next_token(s, p, st) matches Some((_, p2, st2)) ==> state_at_line_start(s, p2, st2),
{
}

/// The token stream after `p`: the next token, then the stream after it.
pub proof fn lemma_tokens_from_unfold(s: Seq<u8>, p: int, st: State)
    requires
        0 <= p <= s.len(),
        s.len() <= u32::MAX,
        state_fits(st, p),
    ensures
        next_token(s, p, st) matches Some((t, p2, st2)) ==> tokens_from(s, p, st) == seq![t] + tokens_from(s, p2, st2),
        next_token(s, p, st) is None ==> tokens_from(s, p, st) == Seq::<TokenView>::empty(),
{
    lemma_next_token_progress(s, p, st);
}

/// The span of input bytes that a token is being built from, and the width
/// counted for it so far.
struct CharCache {
    start: usize,
    len: usize,
    char_len: u32,
}

impl CharCache {
    /// The bytes the cache holds.
    spec fn bytes(self, input: Seq<u8>) -> Seq<u8> {
        input.subrange(self.start as int, self.start + self.len)
    }

    /// The cache after `k` more bytes are put in.
    spec fn after_puts(self, k: nat) -> CharCache
        decreases k,
    {
        if k == 0 {
            self
        } else {
            let c = self.after_puts((k - 1) as nat);
            CharCache { start: c.start, len: (c.len + 1) as usize, char_len: (c.char_len + 1) as u32 }
        }
    }

    /// Emptied and then given `k` bytes from its start on (at most the ten a
    /// token can need), the cache holds exactly those `k` bytes, counts
    /// them, and has an element exactly when `k > 0`.
    proof fn lemma_clear_then_puts(self, input: Seq<u8>, k: nat)
        requires
            self.len == 0,
            self.char_len == 0,
            k <= 10,
            self.start + k <= input.len(),
        ensures
            self.after_puts(k).start == self.start,
            self.after_puts(k).len == k,
            self.after_puts(k).char_len == k,
            self.after_puts(k).bytes(input) == input.subrange(self.start as int, self.start + k),
            (self.after_puts(k).len != 0) == (k > 0),
        decreases k,
    {
        if k > 0 {
            self.lemma_clear_then_puts(input, (k - 1) as nat);
        }
    }

    fn new(start: usize) -> (r: Self)
        ensures
            r.start == start,
            r.len == 0,
            r.char_len == 0,
    {
        CharCache { start, len: 0, char_len: 0 }
    }

    fn has_element(&self) -> (r: bool)
        ensures
            r == (self.len != 0),
    {
        self.len != 0
    }

    /// Takes in one more byte.
    fn put(&mut self)
        requires
            old(self).len < 100,
            old(self).char_len < 100,
        ensures
            final(self).start == old(self).start,
            final(self).len == old(self).len + 1,
            final(self).char_len == old(self).char_len + 1,
            *final(self) == old(self).after_puts(1),
    {
        proof {
            reveal_with_fuel(CharCache::after_puts, 2);
        }
        self.len += 1;
        self.char_len += 1;
    }

    /// Takes in one more character of `width` bytes; each byte counts one
    /// and the character one more.
    fn put_chr(&mut self, width: usize)
        requires
            old(self).len < 100,
            old(self).char_len < 100,
            width <= 4,
        ensures
            final(self).start == old(self).start,
            final(self).len == old(self).len + width,
            final(self).char_len == old(self).char_len + width + 1,
    {
        self.len += width;
        self.char_len += width as u32 + 1;
    }

    fn get<'a>(&self, input: &'a [u8]) -> (r: &'a [u8])
        requires
            self.start + self.len <= input@.len(),
        ensures
            r@ == input@.subrange(self.start as int, self.start + self.len),
    {
        let n = input.len();
        assert(self.start + self.len <= n);
        slice_subrange(input, self.start, self.start + self.len)
    }

    fn clear(&mut self)
        ensures
            final(self).start == old(self).start,
            final(self).len == 0,
            final(self).char_len == 0,
    {
        self.len = 0;
        self.char_len = 0;
    }

    /// The cached span as a text token; the cache is left empty.
    fn take_token<'a>(&mut self, input: &'a [u8]) -> (r: Token<'a>)
        requires
            old(self).start + old(self).len <= input@.len(),
        ensures
            r@ == (TokenView::PureText {
                data: input@.subrange(old(self).start as int, old(self).start + old(self).len),
                char_len: old(self).char_len,
            }),
            final(self).len == 0,
            final(self).char_len == 0,
    {
        let ret = Token::PureText { data: self.get(input), char_len: self.char_len };
        self.clear();
        ret
    }
}

/// Where the character that starts at `p` ends.
fn chr_end_at(input: &[u8], p: usize) -> (e: usize)
    requires
        p < input@.len(),
    ensures
        e == chr_end(input@, p as int),
        p < e <= p + 4,
{
    let b = input[p];
    let w: usize = if b < 0xC0 {
        1
    } else if b < 0xE0 {
        2
    } else if b < 0xF0 {
        3
    } else {
        4
    };
    if w <= input.len() - p {
        p + w
    } else {
        input.len()
    }
}

/// Splits a Markdown document into tokens, one at a time.
#[derive(Clone, Copy)]
pub struct Tokenizer<'a> {
    input: &'a [u8],
    pos: usize,
    state: State,
}

impl<'a> Tokenizer<'a> {
    /// The document.
    pub closed spec fn text(&self) -> Seq<u8> {
        self.input@
    }

    /// How far into the document the tokenizer has read.
    pub closed spec fn position(&self) -> int {
        self.pos as int
    }

    pub closed spec fn line_state(&self) -> State {
        self.state
    }

    pub closed spec fn wf(&self) -> bool {
        &&& self.pos <= self.input@.len()
        &&& self.input@.len() <= u32::MAX
        &&& state_fits(self.state, self.pos as int)
    }

    /// What a well-formed tokenizer keeps to.
    pub proof fn lemma_wf(&self)
        requires
            self.wf(),
        ensures
            0 <= self.position() <= self.text().len(),
            self.text().len() <= u32::MAX,
            state_fits(self.line_state(), self.position()),
    {
    }

    /// The tokens still to come.
    pub open spec fn remaining(&self) -> Seq<TokenView> {
        tokens_from(self.text(), self.position(), self.line_state())
    }

    pub fn new(r: &'a [u8]) -> (t: Self)
        requires
            r@.len() <= u32::MAX,
        ensures
            t.wf(),
            t.text() == r@,
            t.position() == 0,
            t.line_state() == State::Start,
            t.remaining() == tokens_of(r@),
    {
        Tokenizer { input: r, pos: 0, state: State::Start }
    }

    /// How far into the document the tokenizer has read.
    pub fn offset(&self) -> (r: usize)
        ensures
            r == self.position(),
    {
        self.pos
    }

    /// The length of the document.
    pub fn text_len(&self) -> (r: usize)
        ensures
            r == self.text().len(),
    {
        self.input.len()
    }

    /// A token made of the character at `p`, which ends at `e`.
    fn get_pure_text(&self, p: usize, e: usize) -> (r: Token<'a>)
        requires
            p <= e <= self.input@.len(),
        ensures
            r@ == (TokenView::PureText { data: self.input@.subrange(p as int, e as int), char_len: 1 }),
    {
        Token::PureText { data: slice_subrange(self.input, p, e), char_len: 1 }
    }

    fn header(&mut self, p: usize) -> (r: Option<Token<'a>>)
        requires
            old(self).wf(),
            p < old(self).input@.len(),
            old(self).input@[p as int] == HEADER_TAG,
        ensures
            final(self).input == old(self).input,
            final(self).state == old(self).state,
            match header_token(old(self).input@, p as int) {
                None => r is None,
                Some((t, p2, _st)) => r matches Some(tok) && tok@ == t && final(self).pos == p2,
            },
    {
        let input = self.input;
        let n = input.len();
        let mut cache = CharCache::new(p);
        let mut head_level: u8 = 1;
        cache.put();
        let mut q = p + 1;
        while q < n
            invariant
                n == input@.len(),
                input == self.input,
                self.input == old(self).input,
                self.state == old(self).state,
                1 <= head_level <= 6,
                q == p + head_level,
                q <= n,
                cache.start == p,
                cache.len == head_level,
                cache.char_len == 2 * head_level - 1,
                forall|j: int| p <= j < q ==> input@[j] == HEADER_TAG,
            decreases n - q,
        {
            let e = chr_end_at(input, q);
            let c = input[q];
            cache.put_chr(e - q);
            if c == HEADER_TAG {
                head_level += 1;
                if head_level == 7 {
                    proof {
                        lemma_hash_run_exact(input@, p as int, 7, 7);
                    }
                    self.pos = e;
                    return Some(cache.take_token(input));
                }
            } else if c == SPACE {
                proof {
                    lemma_hash_run_exact(input@, p as int, 7, head_level as nat);
                }
                self.pos = e;
                cache.clear();
                return Some(Token::Tag(Tag::Header(head_level)));
            } else {
                proof {
                    lemma_hash_run_exact(input@, p as int, 7, head_level as nat);
                }
                self.pos = e;
                return Some(cache.take_token(input));
            }
            q = e;
        }
        proof {
            lemma_hash_run_exact(input@, p as int, 7, head_level as nat);
        }
        self.pos = q;
        cache.clear();
        Some(Token::Tag(Tag::Header(head_level)))
    }

    fn block_quote(&mut self, p: usize) -> (r: Option<Token<'a>>)
        requires
            old(self).wf(),
            p < old(self).input@.len(),
            old(self).input@[p as int] == BLOCK_QUOTE_TAG,
        ensures
            final(self).input == old(self).input,
            final(self).state == old(self).state,
            match quote_token(old(self).input@, p as int) {
                None => r is None,
                Some((t, p2, _st)) => r matches Some(tok) && tok@ == t && final(self).pos == p2,
            },
    {
        let input = self.input;
        if p + 1 >= input.len() {
            self.pos = p + 1;
            return Some(self.get_pure_text(p, p + 1));
        }
        let c = input[p + 1];
        if c == SPACE {
            self.pos = p + 2;
            Some(Token::Tag(Tag::BlockQuote))
        } else {
            let mut cache = CharCache::new(p);
            cache.put();
            let e = chr_end_at(input, p + 1);
            cache.put_chr(e - (p + 1));
            self.pos = e;
            Some(cache.take_token(input))
        }
    }

    fn task_list(&mut self, p: usize) -> (r: Option<Token<'a>>)
        requires
            old(self).wf(),
            p < old(self).input@.len(),
            old(self).input@[p as int] == DASH,
        ensures
            final(self).input == old(self).input,
            final(self).state == old(self).state,
            match task_token(old(self).input@, p as int) {
                None => r is None && final(self).pos == old(self).input@.len(),
                Some((t, p2, _st)) => r matches Some(tok) && tok@ == t && final(self).pos == p2,
            },
    {
        let input = self.input;
        let n = input.len();
        let mut is_done_task = false;
        let mut cache = CharCache::new(p);
        cache.put();
        let mut i: usize = 0;
        while i < 5
            invariant
                n == input@.len(),
                input == self.input,
                self.input == old(self).input,
                self.state == old(self).state,
                p < n,
                0 <= i <= 5,
                p + 1 + i <= n,
                cache.start == p,
                cache.len == 1 + i,
                cache.char_len == 1 + i,
                forall|k: int| #![trigger input@[k]] p + 1 <= k < p + 1 + i ==> task_byte_ok(input@[k], 0 + (k - (p + 1))),
                is_done_task == (i > 2 && input@[p + 3] == LOWER_X),
            decreases 5 - i,
        {
            let q = p + 1 + i;
            if q >= n {
                proof {
                    lemma_task_run_exact(input@, p + 1, 0, i as nat);
                }
                self.pos = n;
                return None;
            }
            let c = input[q];
            let counter: u8 = if i == 0 {
                SPACE
            } else if i == 1 {
                OPEN_BRACKET
            } else if i == 3 {
                CLOSE_BRACKET
            } else {
                SPACE
            };
            let fits = if i == 2 {
                if c == LOWER_X {
                    is_done_task = true;
                }
                c == SPACE || c == LOWER_X
            } else {
                c == counter
            };
            if !fits {
                proof {
                    lemma_task_run_exact(input@, p + 1, 0, i as nat);
                }
                let e = chr_end_at(input, q);
                cache.put_chr(e - q);
                self.pos = e;
                return Some(cache.take_token(input));
            }
            cache.put();
            i += 1;
        }
        proof {
            lemma_task_run_exact(input@, p + 1, 0, 5);
        }
        cache.clear();
        self.pos = p + 6;
        Some(Token::Tag(Tag::TaskList(is_done_task)))
    }

    /// The next token, or `None` at the end of the token stream.
    pub fn next(&mut self) -> (r: Option<Token<'a>>)
        requires
            old(self).wf(),
        ensures
            final(self).wf(),
            final(self).text() == old(self).text(),
            match next_token(old(self).text(), old(self).position(), old(self).line_state()) {
                None => r is None && final(self).position() == old(self).text().len(),
                Some((t, p2, st2)) => r matches Some(tok) && tok@ == t && final(self).position() == p2
                    && final(self).line_state() == st2,
            },
            old(self).remaining() == match r {
                Some(tok) => seq![tok@] + final(self).remaining(),
                None => Seq::<TokenView>::empty(),
            },
            r is None ==> final(self).remaining() == Seq::<TokenView>::empty(),
    {
        proof {
            lemma_tokens_from_unfold(self.input@, self.pos as int, self.state);
            lemma_next_token_progress(self.input@, self.pos as int, self.state);
        }
        let input = self.input;
        let n = input.len();
        let p = self.pos;
        if p >= n {
            return None;
        }
        let b = input[p];
        let r = if b >= 0xC0 {
            let e = chr_end_at(input, p);
            self.pos = e;
            self.state = State::Other;
            Some(self.get_pure_text(p, e))
        } else if b == BACKSLASH {
            if p + 1 >= n {
                self.pos = n;
                None
            } else {
                let e = chr_end_at(input, p + 1);
                self.pos = e;
                self.state = State::Other;
                Some(self.get_pure_text(p + 1, e))
            }
        } else if b == SPACE {
            self.pos = p + 1;
            self.state = State::Other;
            Some(Token::Space)
        } else if b == TAB {
            self.state = State::Tab(
                if let State::Tab(k) = self.state {
                    k + 1
                } else {
                    1
                },
            );
            self.pos = p + 1;
            Some(Token::Tab)
        } else if b == LINE_FEED {
            self.pos = p + 1;
            self.state = State::LineFeed;
            Some(Token::Ln)
        } else if b == CARRIAGE_RETURN {
            if p + 1 < n {
                if input[p + 1] == LINE_FEED {
                    self.pos = p + 2;
                } else {
                    self.pos = p + 1;
                }
                self.state = State::LineFeed;
            } else {
                self.pos = p + 1;
            }
            Some(Token::Ln)
        } else {
            let last_state = self.state;
            self.state = State::Other;
            match last_state {
                State::LineFeed | State::Start => {
                    if b == HEADER_TAG {
                        self.header(p)
                    } else if b == BLOCK_QUOTE_TAG {
                        self.block_quote(p)
                    } else if b == DASH {
                        self.task_list(p)
                    } else {
                        self.pos = p + 1;
                        Some(self.get_pure_text(p, p + 1))
                    }
                },
                _ => {
                    self.pos = p + 1;
                    Some(self.get_pure_text(p, p + 1))
                },
            }
        };
        proof {
            if r is None {
                lemma_tokens_from_unfold(self.input@, self.pos as int, self.state);
            }
        }
        r
    }
}

/// Splits a whole document into its tokens.
pub fn tokenize(input: &[u8]) -> (r: Vec<Token>)
    requires
        input@.len() <= u32::MAX,
    ensures
        r@.map_values(|t: Token| t@) == tokens_of(input@),
{
    let mut tokenizer = Tokenizer::new(input);
    let mut out: Vec<Token> = Vec::new();
    loop
        invariant
            tokenizer.wf(),
            tokenizer.text() == input@,
            out@.map_values(|t: Token| t@) + tokenizer.remaining() == tokens_of(input@),
        decreases input@.len() - tokenizer.position(),
    {
        let ghost before = tokenizer.remaining();
        let ghost old_out = out@;
        match tokenizer.next() {
            Some(tok) => {
                out.push(tok);
                proof {
                    assert(out@.map_values(|t: Token| t@) =~= old_out.map_values(|t: Token| t@).push(tok@));
                    assert(out@.map_values(|t: Token| t@) + tokenizer.remaining() =~= old_out.map_values(|t: Token| t@) + before);
                }
            },
            None => {
                proof {
                    assert(out@.map_values(|t: Token| t@) =~= out@.map_values(|t: Token| t@) + tokenizer.remaining());
                }
                return out;
            },
        }
    }
}

/// `v` is where the valid UTF-8 of `data` ends: its first `v` bytes are
/// valid UTF-8, and no longer prefix is.
pub open spec fn is_valid_up_to(data: Seq<u8>, v: int) -> bool {
    &&& 0 <= v <= data.len()
    &&& vstd::utf8::valid_utf8(data.take(v))
    &&& forall|i: int| v < i <= data.len() ==> !vstd::utf8::valid_utf8(#[trigger] data.take(i))
}

/// Where the valid UTF-8 of `data` ends.
pub open spec fn utf8_valid_up_to(data: Seq<u8>) -> int {
    choose|v: int| is_valid_up_to(data, v)
}

/// There is at most one place where the valid UTF-8 of `data` ends.
pub proof fn lemma_valid_up_to_unique(data: Seq<u8>, v: int)
    requires
        is_valid_up_to(data, v),
    ensures
        utf8_valid_up_to(data) == v,
{
    let w = utf8_valid_up_to(data);
    assert(is_valid_up_to(data, w));
    if w < v {
        assert(!vstd::utf8::valid_utf8(data.take(v)));
    } else if v < w {
        assert(!vstd::utf8::valid_utf8(data.take(w)));
    }
}

/// What `Utf8Error::error_len` gives for the bytes `data`: `None` when the
/// input ends inside a character, else the length of the invalid sequence
/// at the end of the valid UTF-8.
pub uninterp spec fn utf8_error_len(data: Seq<u8>) -> Option<usize>;

/// `std::str::from_utf8`, with its error taken apart into
/// `Utf8Error::valid_up_to` and `Utf8Error::error_len`. Its documentation
/// says it succeeds exactly on valid UTF-8 and gives back the decoded text;
/// that `valid_up_to` is the longest prefix that is valid UTF-8; and that
/// `error_len`, where there is one, is the length of the invalid sequence
/// that starts there. What that length is otherwise is named
/// `utf8_error_len`.
#[verifier::external_body]
fn str_from_utf8(data: &[u8]) -> (r: Result<&str, (usize, Option<usize>)>)
    ensures
        r is Ok <==> vstd::utf8::valid_utf8(data@),
        r matches Ok(text) ==> text@ == vstd::utf8::decode_utf8(data@),
        r matches Err((v, l)) ==> is_valid_up_to(data@, v as int) && l == utf8_error_len(data@),
        r matches Err((v, l)) ==> (l matches Some(n) ==> 1 <= n && v + n <= data@.len()),
{
    match std::str::from_utf8(data) {
        Ok(text) => Ok(text),
        Err(e) => Err((e.valid_up_to(), e.error_len())),
    }
}

/// The text that `<str as Debug>::fmt` writes for a string (quoted and
/// escaped); it depends on the characters alone.
pub uninterp spec fn str_debug_text(s: Seq<char>) -> Seq<char>;

/// `<str as Debug>::fmt`, through `format!("{:?}", ..)`; its result is named
/// `str_debug_text`.
#[verifier::external_body]
fn str_debug(s: &str) -> (r: String)
    ensures
        r@ == str_debug_text(s@),
{
    format!("{:?}", s)
}

/// How a UTF-8 decoding error shows when debugging:
/// `Utf8Error { valid_up_to: V, error_len: Some(N) }` (or `None`).
pub open spec fn utf8_error_text(v: nat, l: Option<usize>) -> Seq<char> {
    "Utf8Error { valid_up_to: "@ + decimal(v) + ", error_len: "@ + match l {
        None => "None"@,
        Some(n) => "Some("@ + decimal(n as nat) + ")"@,
    } + " }"@
}

/// How a text token shows its bytes when debugging: `Ok(..)` with the
/// decoded text, shown as `str_debug_text`, where the bytes are valid UTF-8,
/// and else `Err(..)` with the decoding error.
pub open spec fn text_debug_text(data: Seq<u8>) -> Seq<char> {
    if vstd::utf8::valid_utf8(data) {
        "Ok("@ + str_debug_text(vstd::utf8::decode_utf8(data)) + ")"@
    } else {
        "Err("@ + utf8_error_text(utf8_valid_up_to(data) as nat, utf8_error_len(data)) + ")"@
    }
}

impl TokenView {
    /// How a token is shown when debugging: `Space`, `Tab`, `LineFeed`,
    /// `Tag(..)` around the tag's own text, and for text the result of
    /// decoding its bytes as UTF-8.
    pub open spec fn spec_debug_text(self) -> Seq<char> {
        match self {
            TokenView::Space => "Space"@,
            TokenView::Tab => "Tab"@,
            TokenView::Ln => "LineFeed"@,
            TokenView::Tag(t) => "Tag("@ + t.spec_debug_text() + ")"@,
            TokenView::PureText { data, .. } => text_debug_text(data),
        }
    }
}

impl<'a> Token<'a> {
    /// The token as debugging shows it.
    pub fn debug_text(&self) -> (r: String)
        ensures
            r@ == self@.spec_debug_text(),
    {
        match self {
            Token::Space => String::from_str("Space"),
            Token::Tab => String::from_str("Tab"),
            Token::Ln => String::from_str("LineFeed"),
            Token::Tag(t) => {
                let mut r = String::from_str("Tag(");
                let inner = t.debug_text();
                r.append(inner.as_str());
                r.append(")");
                r
            },
            Token::PureText { data, char_len: _len } => match str_from_utf8(data) {
                Ok(text) => {
                    let mut r = String::from_str("Ok(");
                    let inner = str_debug(text);
                    r.append(inner.as_str());
                    r.append(")");
                    r
                },
                Err((v, l)) => {
                    proof {
                        lemma_valid_up_to_unique(data@, v as int);
                    }
                    let mut r = String::from_str("Err(");
                    r.append("Utf8Error { valid_up_to: ");
                    push_decimal(&mut r, v as u64);
                    r.append(", error_len: ");
                    match l {
                        None => r.append("None"),
                        Some(n) => {
                            r.append("Some(");
                            push_decimal(&mut r, n as u64);
                            r.append(")");
                        },
                    }
                    r.append(" }");
                    r.append(")");
                    r
                },
            },
        }
    }
}

/// A line break is `\n`, `\r\n` or a lone `\r`, and it is one token; after
/// it (unless the document ends there) the tokenizer stands at a line start,
/// in state `LineFeed`, whatever state it was in before.
pub proof fn lemma_line_break_token(s: Seq<u8>, p: int, st: State)
    requires
        0 <= p < s.len(),
        s[p] == LINE_FEED || s[p] == CARRIAGE_RETURN,
    ensures
        next_token(s, p, st) matches Some((t, p2, st2)) && t is Ln && p2 == (if s[p] == CARRIAGE_RETURN && p
            + 1 < s.len() && s[p + 1] == LINE_FEED {
            p + 2
        } else {
            p + 1
        }) && (p2 < s.len() ==> st2 == State::LineFeed),
        next_token(s, p, st) matches Some((_, p2, st2)) && (p2 < s.len() ==> is_line_start(s, p2)),
{
}

/// Only `\n` and `\r` make line-break tokens.
pub proof fn lemma_line_break_only_from_newline(s: Seq<u8>, p: int, st: State)
    ensures
        next_token(s, p, st) matches Some((TokenView::Ln, _, _)) ==> s[p] == LINE_FEED || s[p]
            == CARRIAGE_RETURN,
{
}

/// At a line start, one to six `#` followed by a space open a header of
/// that level, and the token takes the `#`s and the space.
pub proof fn lemma_header_at_line_start(s: Seq<u8>, p: int, st: State, k: int)
    requires
        st == State::Start || st == State::LineFeed,
        1 <= k <= 6,
        0 <= p,
        p + k < s.len(),
        forall|j: int| p <= j < p + k ==> s[j] == HEADER_TAG,
        s[p + k] == SPACE,
    ensures
        next_token(s, p, st) == Some((TokenView::Tag(Tag::Header(k as u8)), p + k + 1, State::Other)),
{
    lemma_hash_run_exact(s, p, 7, k as nat);
}

/// At a line start, seven or more `#` are text: the first seven make one
/// text token.
pub proof fn lemma_seven_hashes_are_text(s: Seq<u8>, p: int, st: State)
    requires
        st == State::Start || st == State::LineFeed,
        0 <= p,
        p + 7 <= s.len(),
        forall|j: int| p <= j < p + 7 ==> s[j] == HEADER_TAG,
    ensures
        next_token(s, p, st) == Some((TokenView::PureText { data: s.subrange(p, p + 7), char_len: 13 }, p + 7, State::Other)),
{
    lemma_hash_run_exact(s, p, 7, 7);
}

/// At a line start, `> ` opens a block quote, `- [ ] ` an open task and
/// `- [x] ` a done task.
pub proof fn lemma_block_marks_at_line_start(s: Seq<u8>, p: int, st: State)
    requires
        st == State::Start || st == State::LineFeed,
        0 <= p,
    ensures
        p + 1 < s.len() && s[p] == BLOCK_QUOTE_TAG && s[p + 1] == SPACE ==> next_token(s, p, st) == Some(
            (TokenView::Tag(Tag::BlockQuote), p + 2, State::Other),
        ),
        p + 5 < s.len() && s[p] == DASH && s[p + 1] == SPACE && s[p + 2] == OPEN_BRACKET && (s[p + 3]
            == SPACE || s[p + 3] == LOWER_X) && s[p + 4] == CLOSE_BRACKET && s[p + 5] == SPACE
            ==> next_token(s, p, st) == Some(
            (TokenView::Tag(Tag::TaskList(s[p + 3] == LOWER_X)), p + 6, State::Other),
        ),
{
    if p + 5 < s.len() && s[p] == DASH && s[p + 1] == SPACE && s[p + 2] == OPEN_BRACKET && (s[p + 3]
        == SPACE || s[p + 3] == LOWER_X) && s[p + 4] == CLOSE_BRACKET && s[p + 5] == SPACE {
        lemma_task_run_exact(s, p + 1, 0, 5);
    }
}

} // verus!
