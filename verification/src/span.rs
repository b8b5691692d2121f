//! Source positions: byte offsets, and the rows and columns they fall on.

use line_col::LineColLookup;
use vstd::prelude::*;
use vstd::string::*;

verus! {

/// A span of source text in rows and columns. Rows count from 1. The start
/// column counts from 0 and the end column from 1, so that the span of a
/// token of `n` bytes that begins a line runs from column 0 to column `n + 1`.
/// The default value stands for a span that is not known.
#[derive(Debug, PartialEq, Eq, Structural, Clone, Copy)]
pub struct Range {
    pub start_row: usize,
    pub start_col: usize,
    pub end_row: usize,
    pub end_col: usize,
}

impl Range {
    /// The span that stands for "not known": all four numbers are zero.
    pub open spec fn unknown() -> Range {
        Range { start_row: 0, start_col: 0, end_row: 0, end_col: 0 }
    }
}

impl Default for Range {
    fn default() -> (range: Range)
        ensures
            range == Range::unknown(),
    {
        Range { start_row: 0, start_col: 0, end_row: 0, end_col: 0 }
    }
}

/// A stretch of the source text, given by the byte offsets at which it
/// begins and ends.
#[derive(Debug, PartialEq, Eq, Structural, Clone, Copy)]
pub struct Location {
    pub begin: usize,
    pub end: usize,
}

/// A stretch of the source text that runs from one location to another.
#[derive(Debug, PartialEq, Eq, Structural, Clone, Copy)]
pub struct LocationRange {
    pub start: Location,
    pub end: Location,
}

/// A place in a source text by line and column. The default value, line 0
/// and column 0, stands for a place that is not known.
#[derive(Debug, PartialEq, Eq)]
pub struct SourceLocation {
    line: usize,
    column: usize,
}

impl SourceLocation {
    /// The line of the place.
    pub closed spec fn line(&self) -> usize {
        self.line
    }

    /// The column of the place.
    pub closed spec fn column(&self) -> usize {
        self.column
    }
}

impl Default for SourceLocation {
    fn default() -> (location: SourceLocation)
        ensures
            location.line() == 0,
            location.column() == 0,
    {
        SourceLocation { line: 0, column: 0 }
    }
}

/// `line_col::LineColLookup`, the table of the line starts of a text. What
/// is inside it is not known here.
#[verifier::external_type_specification]
#[verifier::external_body]
pub struct ExLineColLookup<'a>(LineColLookup<'a>);

/// The bytes of the text that a `line_col::LineColLookup` was built from and
/// answers for.
pub uninterp spec fn lookup_text(lookup: &LineColLookup) -> Seq<u8>;

/// The offset at which the line that holds byte `index` of `text` begins:
/// the position after the last line feed before `index`, or 0.
pub open spec fn line_start(text: Seq<u8>, index: int) -> int
    decreases index,
{
    if index <= 0 {
        0
    } else if text[index - 1] == 10u8 {
        index
    } else {
        line_start(text, index - 1)
    }
}

/// The number, counted from 1, of the line that holds byte `index` of
/// `text`: one more than the number of line feeds before `index`.
pub open spec fn line_number(text: Seq<u8>, index: int) -> int
    decreases index,
{
    if index <= 0 {
        1
    } else if text[index - 1] == 10u8 {
        line_number(text, index - 1) + 1
    } else {
        line_number(text, index - 1)
    }
}

/// The column, counted from 1 in bytes, of byte `index` of `text`.
pub open spec fn column_number(text: Seq<u8>, index: int) -> int {
    index - line_start(text, index) + 1
}

/// Lines and columns count from 1 and never exceed the offset by more than 1.
pub proof fn lemma_line_column_bounds(text: Seq<u8>, index: int)
    requires
        0 <= index,
    ensures
        0 <= line_start(text, index) <= index,
        1 <= line_number(text, index) <= index + 1,
        1 <= column_number(text, index) <= index + 1,
    decreases index,
{
    if index > 0 {
        lemma_line_column_bounds(text, index - 1);
    }
}

/// The span in rows and columns of the stretch `loc` of `text`, or the
/// unknown span where `loc` reaches beyond the text. The start column is one
/// less than the 1-based column of the first byte; the end column is the
/// 1-based column of the offset just behind the last byte.
pub open spec fn range_of(text: Seq<u8>, loc: Location) -> Range {
    if loc.begin <= text.len() && loc.end <= text.len() {
        Range {
            start_row: line_number(text, loc.begin as int) as usize,
            start_col: (column_number(text, loc.begin as int) - 1) as usize,
            end_row: line_number(text, loc.end as int) as usize,
            end_col: column_number(text, loc.end as int) as usize,
        }
    } else {
        Range::unknown()
    }
}

/// Builds the lookup table of `text` with `line_col::LineColLookup::new`.
/// Trusted: the table is one of the bytes of `text`.
#[verifier::external_body]
fn new_lookup<'a>(text: &'a str) -> (lookup: LineColLookup<'a>)
    ensures
        lookup_text(&lookup) == text.spec_bytes(),
{
    LineColLookup::new(text)
}

/// Looks up the line and the column of byte `index` with
/// `line_col::LineColLookup::get`, which does not return for an offset
/// beyond the text. Trusted: the line is one more than the number of line
/// feeds before `index`, and the column is one more than the distance in
/// bytes from the start of that line; both count from 1.
#[verifier::external_body]
fn line_col(lookup: &LineColLookup, index: usize) -> (position: (usize, usize))
    requires
        index <= lookup_text(lookup).len(),
    ensures
        position.0 == line_number(lookup_text(lookup), index as int),
        position.1 == column_number(lookup_text(lookup), index as int),
{
    lookup.get(index)
}

/// A source text together with the table that finds the row and column of
/// each of its byte offsets.
pub struct SourceIndex<'a> {
    text: &'a str,
    lookup: LineColLookup<'a>,
}

impl<'a> SourceIndex<'a> {
    #[verifier::type_invariant]
    spec fn table_is_of_text(&self) -> bool {
        lookup_text(&self.lookup) == self.text.spec_bytes()
    }

    /// The bytes of the indexed text.
    pub closed spec fn bytes(&self) -> Seq<u8> {
        self.text.spec_bytes()
    }

    /// Indexes `text`.
    pub fn new(text: &'a str) -> (index: SourceIndex<'a>)
        ensures
            index.bytes() == text.spec_bytes(),
    {
        SourceIndex { text, lookup: new_lookup(text) }
    }
}

/// Converts the stretch `loc` of the indexed text to rows and columns. A
/// stretch that reaches beyond the text has the unknown span.
pub fn loc_to_range(loc: Location, lookup: &SourceIndex) -> (range: Range)
    ensures
        range == range_of(lookup.bytes(), loc),
{
    proof {
        use_type_invariant(lookup);
    }
    let len = lookup.text.as_bytes().len();
    if loc.begin <= len && loc.end <= len {
        let (start_row, start_col) = line_col(&lookup.lookup, loc.begin);
        let (end_row, end_col) = line_col(&lookup.lookup, loc.end);
        proof {
            lemma_line_column_bounds(lookup.bytes(), loc.begin as int);
        }
        Range { start_row, start_col: start_col - 1, end_row, end_col }
    } else {
        Range::default()
    }
}

} // verus!
