use vstd::prelude::*;
use vstd::string::StrSliceExecFns;

verus! {

/// What the splitter hands out: a character to draw, or the end of a line.
#[derive(Clone, Copy, Debug, PartialEq, Eq, Structural)]
pub enum CharOrNewline {
    Char(char),
    NewLine,
}

pub open spec fn is_line_break(ch: char) -> bool {
    ch == '\n' || ch == '\r'
}

/// Everything that a splitter hands out for the characters `rest`, when the current line
/// already holds `offset` characters and a line takes `line_len` of them.
///
/// A line break in the text ends the line. A line that is full ends before the next
/// item, whatever that is. With `line_len == 0` no line can take a character and the
/// splitter would end lines forever: the sequence is then left empty here.
pub open spec fn split_stream(rest: Seq<char>, line_len: nat, offset: nat) -> Seq<CharOrNewline>
    decreases rest.len(), (if offset >= line_len { 1nat } else { 0nat }),
{
    if line_len == 0 {
        Seq::empty()
    } else if offset >= line_len {
        seq![CharOrNewline::NewLine] + split_stream(rest, line_len, 0)
    } else if rest.len() == 0 {
        Seq::empty()
    } else if is_line_break(rest[0]) {
        seq![CharOrNewline::NewLine] + split_stream(rest.drop_first(), line_len, 0)
    } else {
        seq![CharOrNewline::Char(rest[0])] + split_stream(rest.drop_first(), line_len, offset + 1)
    }
}

/// Cuts a text into characters and line ends, ending a line at every line break and
/// whenever it is full.
pub struct SplitByLenOrNewline<'a> {
    text: &'a str,
    len: usize,
    pos: usize,
    line_len: u8,
    line_offset: u8,
}

impl<'a> SplitByLenOrNewline<'a> {
    #[verifier::type_invariant]
    spec fn inv(self) -> bool {
        &&& self.len == self.text@.len()
        &&& self.pos <= self.len
        &&& self.line_offset <= self.line_len
    }

    /// The characters of the text that have not been looked at yet.
    pub closed spec fn remaining(self) -> Seq<char> {
        self.text@.skip(self.pos as int)
    }

    /// Number of characters that a line takes.
    pub closed spec fn line_len(self) -> nat {
        self.line_len as nat
    }

    /// Number of characters handed out for the current line.
    pub closed spec fn spec_line_offset(self) -> nat {
        self.line_offset as nat
    }

    /// Everything that is still to be handed out.
    pub open spec fn pending(self) -> Seq<CharOrNewline> {
        split_stream(self.remaining(), self.line_len(), self.spec_line_offset())
    }

    pub fn new(text: &'a str, line_len: u8) -> (s: Self)
        ensures
            s.remaining() == text@,
            s.line_len() == line_len,
            s.spec_line_offset() == 0,
    {
        SplitByLenOrNewline { text, len: text.unicode_len(), pos: 0, line_len, line_offset: 0 }
    }

    /// Number of characters handed out for the current line.
    pub fn line_offset(&self) -> (n: u8)
        ensures
            n == self.spec_line_offset(),
    {
        self.line_offset
    }

    /// Hands out the next item.
    ///
    /// A full line ends first, without a character being taken. Otherwise the next
    /// character is taken: a line break ends the line, any other character is handed out
    /// and counted; at the end of the text there is nothing more.
    pub fn next(&mut self) -> (r: Option<CharOrNewline>)
        ensures
            final(self).line_len() == old(self).line_len(),
            old(self).spec_line_offset() >= old(self).line_len() ==> {
                &&& r == Some(CharOrNewline::NewLine)
                &&& final(self).remaining() == old(self).remaining()
                &&& final(self).spec_line_offset() == 0
            },
            old(self).spec_line_offset() < old(self).line_len() && old(self).remaining().len()
                == 0 ==> {
                &&& r is None
                &&& final(self).remaining() == old(self).remaining()
                &&& final(self).spec_line_offset() == old(self).spec_line_offset()
            },
            old(self).spec_line_offset() < old(self).line_len() && old(self).remaining().len() > 0
                ==> {
                &&& final(self).remaining() == old(self).remaining().drop_first()
                &&& is_line_break(old(self).remaining()[0]) ==> r == Some(CharOrNewline::NewLine)
                    && final(self).spec_line_offset() == 0
                &&& !is_line_break(old(self).remaining()[0]) ==> r == Some(
                    CharOrNewline::Char(old(self).remaining()[0]),
                ) && final(self).spec_line_offset() == old(self).spec_line_offset() + 1
            },
            old(self).line_len() > 0 ==> {
                &&& r is None <==> old(self).pending().len() == 0
                &&& r is Some ==> r == Some(old(self).pending()[0]) && final(self).pending() == old(
                    self,
                ).pending().drop_first()
            },
    {
        proof {
            use_type_invariant(&*self);
        }
        let ghost before = *self;
        if self.line_offset < self.line_len {
            if self.pos >= self.len {
                return None;
            }
            let ch: char = self.text.get_char(self.pos);
            assert(before.remaining()[0] == ch);
            assert(self.text@.skip(self.pos + 1) =~= before.remaining().drop_first());
            let line_break: bool = ch == '\n' || ch == '\r';
            *self = SplitByLenOrNewline {
                text: self.text,
                len: self.len,
                pos: self.pos + 1,
                line_len: self.line_len,
                line_offset: if line_break {
                    0
                } else {
                    self.line_offset + 1
                },
            };
            let item = if line_break {
                CharOrNewline::NewLine
            } else {
                CharOrNewline::Char(ch)
            };
            assert(before.pending() =~= seq![item] + self.pending());
            assert(before.pending().drop_first() =~= self.pending());
            Some(item)
        } else {
            *self = SplitByLenOrNewline {
                text: self.text,
                len: self.len,
                pos: self.pos,
                line_len: self.line_len,
                line_offset: 0,
            };
            if self.line_len > 0 {
                assert(before.pending() =~= seq![CharOrNewline::NewLine] + self.pending());
                assert(before.pending().drop_first() =~= self.pending());
            }
            Some(CharOrNewline::NewLine)
        }
    }
}

} // verus!
