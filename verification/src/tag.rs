use crate::schema::Schema;
use crate::schema::SchemaPart;
use vstd::prelude::*;

verus! {

/// How many variants `Tag` has.
pub const LEN: usize = 4;

/// The kind of block a line opens.
#[derive(Clone, Copy, PartialEq, Eq, Debug, Structural)]
pub enum Tag {
    NoTag,
    /// A header; its level is 1 to 6.
    Header(u8),
    BlockQuote,
    /// A task list entry; `true` when the task is done.
    TaskList(bool),
}

impl Tag {
    /// A real block: not `NoTag`, and a header's level is 1 to 6.
    pub open spec fn has_index(self) -> bool {
        match self {
            Tag::NoTag => false,
            Tag::Header(level) => 1 <= level <= 6,
            _ => true,
        }
    }

    /// How many characters the markup of the tag takes up in its line.
    pub open spec fn spec_char_len(self) -> int {
        match self {
            Tag::NoTag => 0,
            Tag::Header(level) => level + 1,
            Tag::BlockQuote => 2,
            Tag::TaskList(_) => 6,
        }
    }

    /// The slot of the tag in the table of used tags: headers 1 to 6 take
    /// slots 0 to 5, then block quote, done task, open task.
    pub open spec fn spec_index(self) -> int {
        match self {
            Tag::Header(level) => level - 1,
            Tag::BlockQuote => 6,
            Tag::TaskList(true) => 7,
            Tag::TaskList(false) => 8,
            Tag::NoTag => -1,
        }
    }

    pub open spec fn start_part(self) -> SchemaPart {
        match self {
            Tag::Header(level) => SchemaPart::HeaderStart(level),
            Tag::BlockQuote => SchemaPart::BlockQuoteStart,
            Tag::TaskList(true) => SchemaPart::TaskListDoneStart,
            Tag::TaskList(false) => SchemaPart::TaskListTodoStart,
            Tag::NoTag => SchemaPart::HeaderStart(0),
        }
    }

    pub open spec fn end_part(self) -> SchemaPart {
        match self {
            Tag::Header(level) => SchemaPart::HeaderEnd(level),
            Tag::BlockQuote => SchemaPart::BlockQuoteEnd,
            Tag::TaskList(true) => SchemaPart::TaskListDoneEnd,
            Tag::TaskList(false) => SchemaPart::TaskListTodoEnd,
            Tag::NoTag => SchemaPart::HeaderEnd(0),
        }
    }

    /// The text that closes the tag; nothing for `NoTag`.
    pub open spec fn end_text<S: Schema>(self, s: &S) -> Seq<char> {
        match self {
            Tag::NoTag => Seq::empty(),
            _ => s.text(self.end_part()),
        }
    }

    pub fn char_len(self) -> (r: u32)
        ensures
            r == self.spec_char_len(),
    {
        match self {
            Tag::NoTag => 0,
            Tag::Header(level) => level as u32 + 1,
            Tag::BlockQuote => 2,
            Tag::TaskList(_x) => 6,
        }
    }

    pub fn tag_index(self) -> (r: usize)
        requires
            self.has_index(),
        ensures
            r == self.spec_index(),
            r < 9,
    {
        match self {
            Tag::Header(level) => (level - 1) as usize,
            Tag::BlockQuote => 6,
            Tag::TaskList(true) => 7,
            Tag::TaskList(false) => 8,
            Tag::NoTag => 0,
        }
    }

    pub fn start_tag<S: Schema>(self, s: &S) -> (r: &str)
        requires
            self.has_index(),
        ensures
            r@ == s.text(self.start_part()),
    {
        match self {
            Tag::Header(level) => Self::header_start(s, level),
            Tag::BlockQuote => s.block_quote_start(),
            Tag::TaskList(is_done) => {
                if is_done {
                    s.task_list_done_start()
                } else {
                    s.task_list_todo_start()
                }
            },
            Tag::NoTag => "",
        }
    }

    pub fn end_tag<S: Schema>(self, s: &S) -> (r: &str)
        requires
            self.has_index() || self == Tag::NoTag,
        ensures
            r@ == self.end_text(s),
    {
        match self {
            Tag::NoTag => {
                proof {
                    reveal_strlit("");
                }
                ""
            },
            Tag::Header(level) => Self::header_end(s, level),
            Tag::BlockQuote => s.block_quote_end(),
            Tag::TaskList(is_done) => {
                if is_done {
                    s.task_list_done_end()
                } else {
                    s.task_list_todo_end()
                }
            },
        }
    }

    pub fn header_start<S: Schema>(s: &S, level: u8) -> (r: &str)
        requires
            1 <= level <= 6,
        ensures
            r@ == s.text(SchemaPart::HeaderStart(level)),
    {
        match level {
            1 => s.h1_start(),
            2 => s.h2_start(),
            3 => s.h3_start(),
            4 => s.h4_start(),
            5 => s.h5_start(),
            _ => s.h6_start(),
        }
    }

    pub fn header_end<S: Schema>(s: &S, level: u8) -> (r: &str)
        requires
            1 <= level <= 6,
        ensures
            r@ == s.text(SchemaPart::HeaderEnd(level)),
    {
        match level {
            1 => s.h1_end(),
            2 => s.h2_end(),
            3 => s.h3_end(),
            4 => s.h4_end(),
            5 => s.h5_end(),
            _ => s.h6_end(),
        }
    }
}

/// Distinct blocks take distinct slots of the used-tag table, and every
/// slot lies below 9.
pub proof fn lemma_tag_index_injective(a: Tag, b: Tag)
    requires
        a.has_index(),
        b.has_index(),
    ensures
        0 <= a.spec_index() < 9,
        a.spec_index() == b.spec_index() <==> a == b,
{
}

/// The decimal digits of `n`.
pub open spec fn decimal(n: nat) -> Seq<char>
    decreases n,
{
    if n < 10 {
        seq![digit_char(n)]
    } else {
        decimal(n / 10) + seq![digit_char(n % 10)]
    }
}

pub open spec fn digit_char(d: nat) -> char {
    if d == 0 {
        '0'
    } else if d == 1 {
        '1'
    } else if d == 2 {
        '2'
    } else if d == 3 {
        '3'
    } else if d == 4 {
        '4'
    } else if d == 5 {
        '5'
    } else if d == 6 {
        '6'
    } else if d == 7 {
        '7'
    } else if d == 8 {
        '8'
    } else {
        '9'
    }
}

fn digit_str(d: u64) -> (r: &'static str)
    requires
        d < 10,
    ensures
        r@ == seq![digit_char(d as nat)],
{
    proof {
        reveal_strlit("0");
        reveal_strlit("1");
        reveal_strlit("2");
        reveal_strlit("3");
        reveal_strlit("4");
        reveal_strlit("5");
        reveal_strlit("6");
        reveal_strlit("7");
        reveal_strlit("8");
        reveal_strlit("9");
    }
    match d {
        0 => "0",
        1 => "1",
        2 => "2",
        3 => "3",
        4 => "4",
        5 => "5",
        6 => "6",
        7 => "7",
        8 => "8",
        _ => "9",
    }
}

/// Appends the decimal digits of `n` to `s`.
pub fn push_decimal(s: &mut String, n: u64)
    ensures
        final(s)@ == old(s)@ + decimal(n as nat),
    decreases n,
{
    if n >= 10 {
        push_decimal(s, n / 10);
    }
    s.append(digit_str(n % 10));
}

impl Tag {
    /// How the tag is shown when debugging: `None`, `Header(2)`,
    /// `BlockQuote`, `TaskList(true)`.
    pub open spec fn spec_debug_text(self) -> Seq<char> {
        match self {
            Tag::NoTag => "None"@,
            Tag::Header(level) => "Header("@ + decimal(level as nat) + ")"@,
            Tag::BlockQuote => "BlockQuote"@,
            Tag::TaskList(true) => "TaskList(true)"@,
            Tag::TaskList(false) => "TaskList(false)"@,
        }
    }

    pub fn debug_text(self) -> (r: String)
        ensures
            r@ == self.spec_debug_text(),
    {
        match self {
            Tag::NoTag => String::from_str("None"),
            Tag::Header(level) => {
                let mut r = String::from_str("Header(");
                push_decimal(&mut r, level as u64);
                r.append(")");
                r
            },
            Tag::BlockQuote => String::from_str("BlockQuote"),
            Tag::TaskList(true) => String::from_str("TaskList(true)"),
            Tag::TaskList(false) => String::from_str("TaskList(false)"),
        }
    }
}

} // verus!
