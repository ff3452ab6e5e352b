//! Selection across lines: from two arbitrary endpoints to the selected
//! text and the region to highlight.
use vstd::prelude::*;

use crate::line::Line;
use crate::text::push_char;

verus! {

/// A character position: a line index and a character offset in that line.
#[derive(Clone, Copy, Debug, PartialEq, Eq, Structural)]
pub struct Position {
    pub line: usize,
    pub offset: usize,
}

impl Position {
    pub fn new(line: usize, offset: usize) -> (r: Position)
        ensures
            r == (Position { line, offset }),
    {
        Position { line, offset }
    }
}

/// What a highlight is for.
#[derive(Debug)]
pub enum HighlightMode {
    /// A selection: its text, and the index of the line it ends on.
    Selection(String, usize),
}

/// A highlighted region: it starts at `start` on line `line` and ends before
/// `end` on the line the mode names.
#[derive(Debug)]
pub struct HighlightInfo {
    pub line: usize,
    pub start: usize,
    pub end: usize,
    pub mode: HighlightMode,
}

/// `x + 1`, staying at `usize::MAX`.
pub open spec fn succ_sat(x: usize) -> usize {
    if x == usize::MAX {
        x
    } else {
        (x + 1) as usize
    }
}

/// The endpoints in order: first line and offset, last line and exclusive
/// end offset.
pub open spec fn ordered_endpoints(from: Position, to: Position) -> (usize, usize, usize, usize) {
    if from.line > to.line || (from.line == to.line && from.offset >= to.offset) {
        (to.line, to.offset, from.line, succ_sat(from.offset))
    } else {
        (from.line, from.offset, to.line, succ_sat(to.offset))
    }
}

/// The characters of `s` from `from` up to `to`, none when `from >= to`.
pub open spec fn slice_chars(s: Seq<char>, from: int, to: int) -> Seq<char> {
    if from < to {
        s.subrange(from, to)
    } else {
        Seq::empty()
    }
}

/// `piece` added to the selected text `acc`, after a newline unless `acc`
/// is still empty.
pub open spec fn join_piece(acc: Seq<char>, piece: Seq<char>) -> Seq<char> {
    if acc.len() == 0 {
        piece
    } else {
        acc.push('\n') + piece
    }
}

/// The text selected from lines `line1` up to, not including, `k`: the first
/// from `offset1` to its end, the others whole.
pub open spec fn selected_prefix(lines: Seq<Seq<char>>, line1: int, offset1: int, k: int) -> Seq<
    char,
>
    decreases k - line1,
{
    if k <= line1 {
        Seq::empty()
    } else {
        let l = k - 1;
        join_piece(
            selected_prefix(lines, line1, offset1, l),
            slice_chars(
                lines[l],
                if l == line1 {
                    offset1
                } else {
                    0
                },
                lines[l].len() as int,
            ),
        )
    }
}

pub open spec fn lines_view(lines: Seq<Line>) -> Seq<Seq<char>> {
    lines.map_values(|l: Line| l@)
}

/// A selection as a value: first line, start offset, end offset on the last
/// line, selected text, last line.
pub struct SelectionView {
    pub line: int,
    pub start: int,
    pub end: int,
    pub text: Seq<char>,
    pub line_to: int,
}

/// The selection between `from` and `to` over `lines`: `None` when there are
/// no lines or nothing is selected. A last line past the end selects to the
/// end of the last line.
pub open spec fn selection(lines: Seq<Seq<char>>, from: Position, to: Position) -> Option<
    SelectionView,
> {
    let (line1, offset1, line2, offset2) = ordered_endpoints(from, to);
    let n = lines.len() as int;
    if n == 0 {
        None
    } else {
        let line_to = if line2 >= n {
            n - 1
        } else {
            line2 as int
        };
        let offset_to = if line2 >= n {
            usize::MAX as int
        } else {
            offset2 as int
        };
        let last = lines[line_to];
        let end = if last.len() < offset_to {
            last.len() as int
        } else {
            offset_to
        };
        let start = if line1 < line_to {
            0
        } else {
            offset1 as int
        };
        let text = join_piece(
            selected_prefix(lines, line1 as int, offset1 as int, line_to),
            slice_chars(last, start, end),
        );
        if text.len() == 0 {
            None
        } else {
            Some(SelectionView { line: line1 as int, start: offset1 as int, end, text, line_to })
        }
    }
}

/// `info` is the highlight for selection `s`.
pub open spec fn highlights(info: HighlightInfo, s: SelectionView) -> bool {
    &&& info.line == s.line
    &&& info.start == s.start
    &&& info.end == s.end
    &&& info.mode matches HighlightMode::Selection(text, line_to) && text@ == s.text && line_to
        == s.line_to
}

fn push_slice(line: &Line, from: usize, to: usize, text: &mut String, empty: bool) -> (r: bool)
    requires
        to <= line@.len(),
        empty == (old(text)@.len() == 0),
    ensures
        final(text)@ == join_piece(old(text)@, slice_chars(line@, from as int, to as int)),
        r == (final(text)@.len() == 0),
{
    if !empty {
        push_char(text, '\n');
    }
    let ghost start = text@;
    if from >= to {
        proof {
            assert(text@ =~= join_piece(old(text)@, slice_chars(line@, from as int, to as int)));
        }
        return empty;
    }
    let mut offset = from;
    while offset < to
        invariant
            from <= offset <= to <= line@.len(),
            from < to,
            text@ == start + line@.subrange(from as int, offset as int),
        decreases to - offset,
    {
        match line.char_at(offset) {
            Some(c) => push_char(text, c),
            None => {},
        }
        proof {
            assert(start + line@.subrange(from as int, offset + 1) =~= start + line@.subrange(
                from as int,
                offset as int,
            ).push(line@[offset as int]));
        }
        offset += 1;
    }
    proof {
        assert(text@ =~= join_piece(old(text)@, slice_chars(line@, from as int, to as int)));
    }
    false
}

/// The selection between `from` and `to` over `lines`, in either order: the
/// later endpoint is included, lines in between are taken whole and joined
/// by newlines. `None` when there are no lines or the text is empty.
pub fn range_highlight(lines: &Vec<Line>, from: Position, to: Position) -> (r: Option<
    HighlightInfo,
>)
    ensures
        match selection(lines_view(lines@), from, to) {
            Some(s) => r is Some && highlights(r->0, s),
            None => r is None,
        },
        r matches Some(h) ==> (h.mode matches HighlightMode::Selection(t, _) && t@.len() > 0),
{
    let ghost view = lines_view(lines@);
    let (line1, offset1, line2, offset2) = if from.line > to.line || (from.line == to.line
        && from.offset >= to.offset) {
        (to.line, to.offset, from.line, if from.offset == usize::MAX {
            from.offset
        } else {
            from.offset + 1
        })
    } else {
        (from.line, from.offset, to.line, if to.offset == usize::MAX {
            to.offset
        } else {
            to.offset + 1
        })
    };
    let lines_count = lines.len();
    if lines_count == 0 {
        return None;
    }
    let mut selected_text = String::new();
    let mut empty = true;
    let (line_to, offset_to) = if line2 >= lines_count {
        (lines_count - 1, usize::MAX)
    } else {
        (line2, offset2)
    };
    let mut offset_from = offset1;
    let mut line = line1;
    while line < line_to
        invariant
            line_to < lines_count == lines@.len(),
            view == lines_view(lines@),
            line1 <= line || line1 >= line_to,
            line1 < line_to ==> line <= line_to,
            line1 >= line_to ==> line == line1,
            offset_from == if line == line1 {
                offset1
            } else {
                0
            },
            selected_text@ == selected_prefix(view, line1 as int, offset1 as int, line as int),
            empty == (selected_text@.len() == 0),
        decreases line_to - line,
    {
        let text = &lines[line];
        empty = push_slice(text, offset_from, text.len(), &mut selected_text, empty);
        offset_from = 0;
        line += 1;
    }
    let last_text = &lines[line_to];
    let offset_to = if last_text.len() < offset_to {
        last_text.len()
    } else {
        offset_to
    };
    proof {
        if line1 >= line_to {
            assert(selected_prefix(view, line1 as int, offset1 as int, line_to as int) == Seq::<
                char,
            >::empty());
        }
    }
    empty = push_slice(last_text, offset_from, offset_to, &mut selected_text, empty);
    if empty {
        None
    } else {
        Some(
            HighlightInfo {
                line: line1,
                start: offset1,
                end: offset_to,
                mode: HighlightMode::Selection(selected_text, line_to),
            },
        )
    }
}

/// With no lines there is nothing to select.
pub proof fn lemma_no_lines_no_selection(from: Position, to: Position)
    ensures
        selection(Seq::empty(), from, to) is None,
{
}

} // verus!
