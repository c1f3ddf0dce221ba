//! Positions and ranges in a text document, and diagnostics attached to ranges.
use std::cmp::Ordering;
use vstd::prelude::*;

verus! {

/// A zero-based line and character offset in a document.
#[derive(Clone, Copy, Debug, PartialEq, Eq, Hash, Structural)]
pub struct Position {
    pub line: u32,
    pub character: u32,
}

/// The span between two positions of a document.
#[derive(Clone, Copy, Debug, PartialEq, Eq, Hash, Structural)]
pub struct Range {
    pub start: Position,
    pub end: Position,
}

/// `p` comes no later than `q` in the document.
pub open spec fn pos_le(p: Position, q: Position) -> bool {
    p.line < q.line || (p.line == q.line && p.character <= q.character)
}

/// `p` comes strictly before `q` in the document.
pub open spec fn pos_lt(p: Position, q: Position) -> bool {
    p.line < q.line || (p.line == q.line && p.character < q.character)
}

/// `pos` lies in `range`, both ends included.
pub open spec fn range_contains(range: Range, pos: Position) -> bool {
    pos_le(range.start, pos) && pos_le(pos, range.end)
}

/// `Ordering::Equal` if the position is within the range, otherwise the side of the range on
/// which it lies.
pub fn cmp_pos_range(range: &Range, pos: &Position) -> (r: Ordering)
    ensures
        r == (if !pos_le(range.start, *pos) {
            Ordering::Less
        } else if !pos_le(*pos, range.end) {
            Ordering::Greater
        } else {
            Ordering::Equal
        }),
{
    if pos.line < range.start.line || pos.character < range.start.character && pos.line
        == range.start.line {
        return Ordering::Less;
    }
    if pos.line > range.end.line || pos.character > range.end.character && pos.line
        == range.end.line {
        return Ordering::Greater;
    }
    Ordering::Equal
}

/// Whether `range` contains `pos`: `cmp_pos_range` answers `Ordering::Equal`.
pub fn pos_in_range(range: &Range, pos: &Position) -> (r: bool)
    ensures
        r == range_contains(*range, *pos),
{
    match cmp_pos_range(range, pos) {
        Ordering::Equal => true,
        _ => false,
    }
}

/// Law: a position compares `Equal` to a range exactly when the range contains it.
pub proof fn lemma_cmp_equal_iff_contains(range: Range, pos: Position)
    ensures
        (if !pos_le(range.start, pos) {
            Ordering::Less
        } else if !pos_le(pos, range.end) {
            Ordering::Greater
        } else {
            Ordering::Equal
        }) == Ordering::Equal <==> range_contains(range, pos),
{
}

/// Whether two ranges overlap, as the document store decides it: the first range starts on
/// an earlier line than the second ends, or on the same line and an earlier character while
/// the second also starts before the first ends.
pub fn ranges_overlap(range: &Range, other: &Range) -> (r: bool)
    ensures
        r == (range.start.line < other.end.line || (range.start.line == other.end.line
            && range.start.character < other.end.character && pos_lt(other.start, range.end))),
{
    let start1 = &range.start;
    let end1 = &range.end;
    let start2 = &other.start;
    let end2 = &other.end;
    (start1.line < end2.line) || (start1.line == end2.line && start1.character < end2.character)
        && (start2.line < end1.line || (start2.line == end1.line && start2.character
        < end1.character))
}

/// How serious a diagnostic is.
#[derive(Clone, Copy, Debug, PartialEq, Eq, Structural)]
pub enum DiagnosticSeverity {
    Error,
    Warning,
    Information,
    Hint,
}

/// A message shown by the editor over a range of a document.
#[derive(Debug, PartialEq, Eq)]
pub struct Diagnostic {
    pub range: Range,
    pub severity: Option<DiagnosticSeverity>,
    pub message: String,
}

} // verus!
