//! Positions in source text: a span of characters that remembers where in the
//! source it lies, so that a failure can name its line and column.

use vstd::prelude::*;
use vstd::std_specs::iter::IteratorSpec;
use vstd::string::StrSliceExecFns;

verus! {

/// Whether `c` is blank: space, tab, carriage return or line feed.
pub open spec fn is_space(c: char) -> bool {
    c == ' ' || c == '\t' || c == '\r' || c == '\n'
}

/// Number of line feeds among the first `pos` characters of `text`.
pub open spec fn newlines_before(text: Seq<char>, pos: int) -> nat
    decreases pos,
{
    if pos <= 0 || pos > text.len() {
        0
    } else if text[pos - 1] == '\n' {
        newlines_before(text, pos - 1) + 1
    } else {
        newlines_before(text, pos - 1)
    }
}

/// Where the line of position `pos` begins: behind the last line feed before
/// `pos`, or at the start of `text`.
pub open spec fn line_start(text: Seq<char>, pos: int) -> int
    decreases pos,
{
    if pos <= 0 || pos > text.len() {
        0
    } else if text[pos - 1] == '\n' {
        pos
    } else {
        line_start(text, pos - 1)
    }
}

/// The line of position `pos`, counted from 1; `u32::MAX` for every line from
/// that one on.
pub open spec fn line_of(text: Seq<char>, pos: int) -> u32 {
    if newlines_before(text, pos) + 1 >= u32::MAX {
        u32::MAX
    } else {
        (newlines_before(text, pos) + 1) as u32
    }
}

/// Number of bytes that `c` takes in UTF-8.
pub open spec fn utf8_len(c: char) -> nat {
    if (c as u32) < 0x80 {
        1
    } else if (c as u32) < 0x800 {
        2
    } else if (c as u32) < 0x1_0000 {
        3
    } else {
        4
    }
}

/// Number of bytes that the characters of `text` from `from` up to `to` take in
/// UTF-8.
pub open spec fn width_between(text: Seq<char>, from: int, to: int) -> nat
    decreases to - from,
{
    if from >= to || from < 0 || from >= text.len() {
        0
    } else {
        utf8_len(text[from]) + width_between(text, from + 1, to)
    }
}

/// `n`, or `usize::MAX` where `n` is beyond it.
pub open spec fn clamped(n: nat) -> usize {
    if n >= usize::MAX {
        usize::MAX
    } else {
        n as usize
    }
}

/// The column of position `pos`, counted from 1 in bytes of UTF-8, so that in a
/// line of ASCII text it counts characters; `usize::MAX` for every column from
/// that one on.
pub open spec fn column_of(text: Seq<char>, pos: int) -> usize {
    clamped(width_between(text, line_start(text, pos), pos) + 1)
}

/// The offset of position `pos` in bytes of UTF-8; `usize::MAX` for every offset
/// from that one on.
pub open spec fn offset_of(text: Seq<char>, pos: int) -> usize {
    clamped(width_between(text, 0, pos))
}

/// Number of bytes that `c` takes in UTF-8.
pub fn char_width(c: char) -> (r: usize)
    ensures
        r == utf8_len(c),
{
    let code = c as u32;
    if code < 0x80 {
        1
    } else if code < 0x800 {
        2
    } else if code < 0x1_0000 {
        3
    } else {
        4
    }
}

/// The characters of `s`.
pub fn to_chars(s: &str) -> (chars: Vec<char>)
    ensures
        chars@ == s@,
{
    let mut chars: Vec<char> = Vec::new();
    for c in it: s.chars()
        invariant
            it.seq() == s@,
            chars@ == s@.take(it.index() as int),
    {
        chars.push(c);
        assert(chars@ =~= s@.take(it.index() + 1));
    }
    assert(chars@ =~= s@);
    chars
}

/// Whether `c` is blank.
pub fn is_blank(c: char) -> (r: bool)
    ensures
        r == is_space(c),
{
    c == ' ' || c == '\t' || c == '\r' || c == '\n'
}

/// A stretch of a source text, from a position up to an end, together with the
/// whole text: what is left to parse, and where it lies.
#[derive(Debug)]
pub struct Span<'a> {
    source: &'a str,
    chars: Vec<char>,
    offset: usize,
    end: usize,
}

/// What a [`Span`] holds, as mathematical values.
#[verifier::ext_equal]
pub struct SpanView {
    /// The whole source text.
    pub text: Seq<char>,
    /// Where the span begins in `text`.
    pub offset: int,
    /// Where the span ends in `text`.
    pub end: int,
}

impl SpanView {
    /// The characters of the span.
    pub open spec fn fragment(self) -> Seq<char> {
        self.text.subrange(self.offset, self.end)
    }

    /// The text up to the span's end: what a parser of this span may look at.
    pub open spec fn visible(self) -> Seq<char> {
        self.text.take(self.end)
    }

    /// The span from position `pos` on.
    pub open spec fn starting_at(self, pos: int) -> SpanView {
        SpanView { offset: pos, ..self }
    }
}

impl<'a> View for Span<'a> {
    type V = SpanView;

    closed spec fn view(&self) -> SpanView {
        SpanView { text: self.source@, offset: self.offset as int, end: self.end as int }
    }
}

impl<'a> Span<'a> {
    /// The span lies within its text.
    pub closed spec fn wf(&self) -> bool {
        &&& self.chars@ == self.source@
        &&& self.offset <= self.end <= self.chars@.len()
    }

    /// What a well-formed span has.
    pub proof fn lemma_wf(&self)
        requires
            self.wf(),
        ensures
            0 <= self@.offset <= self@.end <= self@.text.len() <= usize::MAX,
    {
        assert(self.chars@.len() == self.chars.len());
    }

    /// The span of all of `source`.
    pub fn new(source: &'a str) -> (span: Span<'a>)
        ensures
            span.wf(),
            span@ == (SpanView { text: source@, offset: 0, end: source@.len() as int }),
    {
        let chars = to_chars(source);
        let end = chars.len();
        Span { source, chars, offset: 0, end }
    }

    /// The span of `source` from `offset` up to `end`.
    pub fn within(source: &'a str, offset: usize, end: usize) -> (span: Span<'a>)
        requires
            offset <= end <= source@.len(),
        ensures
            span.wf(),
            span@ == (SpanView { text: source@, offset: offset as int, end: end as int }),
    {
        Span { source, chars: to_chars(source), offset, end }
    }

    /// The span of the same source from `offset` up to `end`.
    pub fn narrowed_to(self, offset: usize, end: usize) -> (span: Span<'a>)
        requires
            self.wf(),
            offset <= end <= self@.text.len(),
        ensures
            span.wf(),
            span@ == (SpanView { text: self@.text, offset: offset as int, end: end as int }),
    {
        Span { source: self.source, chars: self.chars, offset, end }
    }

    /// The text of the span.
    pub fn fragment(&self) -> (r: &'a str)
        requires
            self.wf(),
        ensures
            r@ == self@.fragment(),
    {
        self.source.substring_char(self.offset, self.end)
    }

    /// The text from position `from` up to position `to` of the source.
    pub fn text_between(&self, from: usize, to: usize) -> (r: &'a str)
        requires
            self.wf(),
            from <= to <= self@.text.len(),
        ensures
            r@ == self@.text.subrange(from as int, to as int),
    {
        self.source.substring_char(from, to)
    }

    /// Whether nothing is left in the span.
    pub fn is_empty(&self) -> (r: bool)
        requires
            self.wf(),
        ensures
            r == (self@.offset == self@.end),
    {
        self.offset == self.end
    }

    /// Where the span begins in the source, in characters.
    pub fn position(&self) -> (r: usize)
        ensures
            r == self@.offset,
    {
        self.offset
    }

    /// Where the span ends in the source, in characters.
    pub fn end_position(&self) -> (r: usize)
        ensures
            r == self@.end,
    {
        self.end
    }

    /// Where the span begins in the source, in bytes of UTF-8.
    pub fn location_offset(&self) -> (r: usize)
        requires
            self.wf(),
        ensures
            r == offset_of(self@.text, self@.offset),
    {
        let mut width: usize = 0;
        let mut start: usize = self.offset;
        while start > 0
            invariant
                self.wf(),
                start <= self.offset <= self.chars@.len(),
                self.chars@ == self@.text,
                width == clamped(width_between(self@.text, start as int, self.offset as int)),
            decreases start,
        {
            start -= 1;
            width = width.saturating_add(char_width(self.chars[start]));
        }
        width
    }

    /// The character at position `pos` of the source.
    pub fn char_at(&self, pos: usize) -> (c: char)
        requires
            self.wf(),
            pos < self@.text.len(),
        ensures
            c == self@.text[pos as int],
    {
        self.chars[pos]
    }

    /// The line on which the span begins, counted from 1.
    pub fn location_line(&self) -> (line: u32)
        requires
            self.wf(),
        ensures
            line == line_of(self@.text, self@.offset),
    {
        self.line_at(self.offset)
    }

    /// The column at which the span begins, counted from 1 in bytes of UTF-8.
    pub fn get_column(&self) -> (column: usize)
        requires
            self.wf(),
        ensures
            column == column_of(self@.text, self@.offset),
    {
        self.column_at(self.offset)
    }

    /// The line of position `pos` of the source, counted from 1.
    pub fn line_at(&self, pos: usize) -> (line: u32)
        requires
            self.wf(),
            pos <= self@.text.len(),
        ensures
            line == line_of(self@.text, pos as int),
    {
        let mut line: u32 = 1;
        let mut i: usize = 0;
        while i < pos
            invariant
                self.wf(),
                i <= pos <= self.chars@.len(),
                self.chars@ == self@.text,
                line == line_of(self@.text, i as int),
            decreases pos - i,
        {
            if self.chars[i] == '\n' && line < u32::MAX {
                line += 1;
            }
            i += 1;
        }
        line
    }

    /// The column of position `pos` of the source, counted from 1 in bytes of
    /// UTF-8.
    pub fn column_at(&self, pos: usize) -> (column: usize)
        requires
            self.wf(),
            pos <= self@.text.len(),
        ensures
            column == column_of(self@.text, pos as int),
    {
        let mut width: usize = 0;
        let mut start: usize = pos;
        while start > 0 && self.chars[start - 1] != '\n'
            invariant
                self.wf(),
                start <= pos <= self.chars@.len(),
                self.chars@ == self@.text,
                line_start(self@.text, pos as int) == line_start(self@.text, start as int),
                width == clamped(width_between(self@.text, start as int, pos as int)),
            decreases start,
        {
            start -= 1;
            width = width.saturating_add(char_width(self.chars[start]));
        }
        width.saturating_add(1)
    }

    /// The span from position `pos` of the source on, up to the same end.
    pub fn advanced_to(self, pos: usize) -> (span: Span<'a>)
        requires
            self.wf(),
            self@.offset <= pos <= self@.end,
        ensures
            span.wf(),
            span@ == self@.starting_at(pos as int),
    {
        Span { source: self.source, chars: self.chars, offset: pos, end: self.end }
    }
}

} // verus!
