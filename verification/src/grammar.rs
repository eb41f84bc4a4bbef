//! The shape of assembly text: where blanks, comments, words and operands begin
//! and end.  Everything here is stated over positions in a text, and scanned in
//! one pass over a [`Span`].

use vstd::prelude::*;

use crate::span::{is_blank, is_space, Span};

verus! {

/// What a scan looks for.
#[derive(Debug, Clone, Copy, PartialEq, Eq, Structural)]
pub enum Until {
    /// A blank character.
    Space,
    /// A character that is not blank.
    NonSpace,
    /// A comma.
    Comma,
    /// A line feed.
    LineEnd,
    /// A line feed or the `#` that begins a comment.
    ContentEnd,
}

/// Whether a scan for `until` stops at character `c`.
pub open spec fn stops(until: Until, c: char) -> bool {
    match until {
        Until::Space => is_space(c),
        Until::NonSpace => !is_space(c),
        Until::Comma => c == ',',
        Until::LineEnd => c == '\n',
        Until::ContentEnd => c == '\n' || c == '#',
    }
}

/// The first position from `from` on, and before `to`, at which a scan for `until`
/// stops; `to` if there is none.
pub open spec fn scan(text: Seq<char>, from: int, to: int, until: Until) -> int
    decreases to - from,
{
    if from >= to || from < 0 || from >= text.len() {
        from
    } else if stops(until, text[from]) {
        from
    } else {
        scan(text, from + 1, to, until)
    }
}

/// The position behind the last character of `text` between `from` and `to` that
/// is not blank; `from` if all of them are blank.
pub open spec fn trim_end(text: Seq<char>, from: int, to: int) -> int
    decreases to - from,
{
    if to <= from || to > text.len() {
        to
    } else if is_space(text[to - 1]) {
        trim_end(text, from, to - 1)
    } else {
        to
    }
}

/// The characters of `text` between `from` and `to`, without the blanks at their
/// start and end.
pub open spec fn trimmed(text: Seq<char>, from: int, to: int) -> Seq<char> {
    let start = scan(text, from, to, Until::NonSpace);
    text.subrange(start, trim_end(text, start, to))
}

/// The first position from `pos` on that is neither blank nor inside a comment;
/// the end of `text` if there is none.  A comment runs from a `#` to the end of
/// its line.
pub open spec fn skip_blank(text: Seq<char>, pos: int, in_comment: bool) -> int
    decreases text.len() - pos,
{
    if pos < 0 || pos >= text.len() {
        pos
    } else if in_comment {
        skip_blank(text, pos + 1, text[pos] != '\n')
    } else if is_space(text[pos]) {
        skip_blank(text, pos + 1, false)
    } else if text[pos] == '#' {
        skip_blank(text, pos + 1, true)
    } else {
        pos
    }
}

/// The operand tokens between `pos` and `to`, where the token that is being read
/// began at `piece`: the text is cut at every comma and each piece is trimmed.
pub open spec fn pieces(text: Seq<char>, piece: int, pos: int, to: int) -> Seq<Seq<char>>
    decreases to - pos,
{
    if pos >= to || pos < 0 || pos >= text.len() {
        seq![trimmed(text, piece, to)]
    } else if text[pos] == ',' {
        seq![trimmed(text, piece, pos)] + pieces(text, pos + 1, pos + 1, to)
    } else {
        pieces(text, piece, pos + 1, to)
    }
}

/// The operand tokens of the text between `from` and `to`: none where the text is
/// blank, else its comma-separated pieces, each trimmed.
pub open spec fn operands_of(text: Seq<char>, from: int, to: int) -> Seq<Seq<char>> {
    if scan(text, from, to, Until::NonSpace) >= to {
        Seq::empty()
    } else {
        pieces(text, from, from, to)
    }
}

/// A scan ends between its bounds, at the first character that stops it.
pub proof fn lemma_scan(text: Seq<char>, from: int, to: int, until: Until)
    requires
        0 <= from <= to <= text.len(),
    ensures
        from <= scan(text, from, to, until) <= to,
        scan(text, from, to, until) < to ==> stops(until, text[scan(text, from, to, until)]),
        forall|i: int| from <= i < scan(text, from, to, until) ==> !stops(until, #[trigger] text[i]),
    decreases to - from,
{
    if from < to && !stops(until, text[from]) {
        lemma_scan(text, from + 1, to, until);
    }
}

/// Skipping blanks and comments moves forward and stays within the text.
pub proof fn lemma_skip_blank(text: Seq<char>, pos: int, in_comment: bool)
    requires
        0 <= pos <= text.len(),
    ensures
        pos <= skip_blank(text, pos, in_comment) <= text.len(),
        skip_blank(text, pos, in_comment) < text.len() ==> !is_space(
            text[skip_blank(text, pos, in_comment)],
        ) && text[skip_blank(text, pos, in_comment)] != '#',
    decreases text.len() - pos,
{
    if pos < text.len() {
        if in_comment {
            lemma_skip_blank(text, pos + 1, text[pos] != '\n');
        } else if is_space(text[pos]) {
            lemma_skip_blank(text, pos + 1, false);
        } else if text[pos] == '#' {
            lemma_skip_blank(text, pos + 1, true);
        }
    }
}

/// Whether a scan for `until` stops at `c`.
fn stops_at(until: Until, c: char) -> (r: bool)
    ensures
        r == stops(until, c),
{
    match until {
        Until::Space => is_blank(c),
        Until::NonSpace => !is_blank(c),
        Until::Comma => c == ',',
        Until::LineEnd => c == '\n',
        Until::ContentEnd => c == '\n' || c == '#',
    }
}

/// Scans the span's text from `from` on, up to `to`, for `until`.
pub fn scan_span(span: &Span, from: usize, to: usize, until: Until) -> (r: usize)
    requires
        span.wf(),
        from <= to <= span@.end,
    ensures
        r == scan(span@.visible(), from as int, to as int, until),
        from <= r <= to,
{
    proof {
        span.lemma_wf();
    }
    let ghost text = span@.visible();
    let mut i: usize = from;
    while i < to && !stops_at(until, span.char_at(i))
        invariant
            span.wf(),
            text == span@.visible(),
            from <= i <= to <= span@.end <= span@.text.len(),
            scan(text, from as int, to as int, until) == scan(text, i as int, to as int, until),
        decreases to - i,
    {
        i += 1;
    }
    i
}

/// Trims the blanks off the end of the span's text between `from` and `to`.
pub fn trim_end_span(span: &Span, from: usize, to: usize) -> (r: usize)
    requires
        span.wf(),
        from <= to <= span@.end,
    ensures
        r == trim_end(span@.visible(), from as int, to as int),
        from <= r <= to,
{
    proof {
        span.lemma_wf();
    }
    let ghost text = span@.visible();
    let mut i: usize = to;
    while i > from && is_blank(span.char_at(i - 1))
        invariant
            span.wf(),
            text == span@.visible(),
            from <= i <= to <= span@.end <= span@.text.len(),
            trim_end(text, from as int, to as int) == trim_end(text, from as int, i as int),
        decreases i,
    {
        i -= 1;
    }
    i
}

/// Skips the blanks and comments of the span's text from `pos` on.
pub fn skip_blank_span(span: &Span, pos: usize) -> (r: usize)
    requires
        span.wf(),
        pos <= span@.end,
    ensures
        r == skip_blank(span@.visible(), pos as int, false),
        pos <= r <= span@.end,
{
    proof {
        span.lemma_wf();
    }
    let ghost text = span@.visible();
    let end = span.end_position();
    let mut i: usize = pos;
    let mut in_comment = false;
    while i < end
        invariant
            span.wf(),
            text == span@.visible(),
            end == span@.end,
            pos <= i <= end <= span@.text.len(),
            skip_blank(text, pos as int, false) == skip_blank(text, i as int, in_comment),
        decreases end - i,
    {
        let c = span.char_at(i);
        if in_comment {
            in_comment = c != '\n';
        } else if is_blank(c) {
        } else if c == '#' {
            in_comment = true;
        } else {
            return i;
        }
        i += 1;
    }
    i
}

/// The text between `from` and `to`, trimmed, as a string of its own.
pub fn trimmed_text(span: &Span, from: usize, to: usize) -> (r: String)
    requires
        span.wf(),
        from <= to <= span@.end,
    ensures
        r@ == trimmed(span@.visible(), from as int, to as int),
{
    proof {
        span.lemma_wf();
    }
    let start = scan_span(span, from, to, Until::NonSpace);
    let stop = trim_end_span(span, start, to);
    let r = span.text_between(start, stop).to_owned();
    assert(r@ =~= trimmed(span@.visible(), from as int, to as int));
    r
}

/// The operand tokens of the span's text between `from` and `to`.
pub fn split_operands(span: &Span, from: usize, to: usize) -> (r: Vec<String>)
    requires
        span.wf(),
        from <= to <= span@.end,
    ensures
        r@.map_values(|s: String| s@) == operands_of(span@.visible(), from as int, to as int),
{
    proof {
        span.lemma_wf();
    }
    let ghost text = span@.visible();
    let mut tokens: Vec<String> = Vec::new();
    if scan_span(span, from, to, Until::NonSpace) >= to {
        assert(tokens@.map_values(|s: String| s@) =~= Seq::<Seq<char>>::empty());
        return tokens;
    }
    let mut piece: usize = from;
    let mut i: usize = from;
    while i < to
        invariant
            span.wf(),
            text == span@.visible(),
            from <= piece <= i <= to <= span@.end <= span@.text.len(),
            pieces(text, from as int, from as int, to as int) == tokens@.map_values(
                |s: String| s@,
            ) + pieces(text, piece as int, i as int, to as int),
        decreases to - i,
    {
        if span.char_at(i) == ',' {
            let ghost before = tokens@.map_values(|s: String| s@);
            tokens.push(trimmed_text(span, piece, i));
            assert(tokens@.map_values(|s: String| s@) =~= before + seq![
                trimmed(text, piece as int, i as int),
            ]);
            assert(before + (seq![trimmed(text, piece as int, i as int)] + pieces(
                text,
                i + 1,
                i + 1,
                to as int,
            )) =~= before + seq![trimmed(text, piece as int, i as int)] + pieces(
                text,
                i + 1,
                i + 1,
                to as int,
            ));
            piece = i + 1;
        }
        i += 1;
    }
    let ghost before = tokens@.map_values(|s: String| s@);
    tokens.push(trimmed_text(span, piece, to));
    assert(tokens@.map_values(|s: String| s@) =~= before + seq![
        trimmed(text, piece as int, to as int),
    ]);
    tokens
}

} // verus!
