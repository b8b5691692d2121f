use packs::span::{loc_to_range, Location, Range, SourceIndex, SourceLocation};

fn range(text: &str, begin: usize, end: usize) -> Range {
    loc_to_range(Location { begin, end }, &SourceIndex::new(text))
}

#[test]
fn span_on_the_first_line_starts_at_column_zero() {
    assert_eq!(
        range("Foo", 0, 3),
        Range { start_row: 1, start_col: 0, end_row: 1, end_col: 4 }
    );
}

#[test]
fn span_on_a_later_line_counts_columns_from_the_line_start() {
    assert_eq!(
        range("class Foo\n  Bar\nend\n", 12, 15),
        Range { start_row: 2, start_col: 2, end_row: 2, end_col: 6 }
    );
}

#[test]
fn span_may_run_over_several_lines() {
    assert_eq!(
        range("a\nbc\ndef", 0, 8),
        Range { start_row: 1, start_col: 0, end_row: 3, end_col: 4 }
    );
}

#[test]
fn offset_just_behind_a_line_feed_is_on_the_next_line() {
    assert_eq!(
        range("a\nb", 2, 2),
        Range { start_row: 2, start_col: 0, end_row: 2, end_col: 1 }
    );
}

#[test]
fn offset_of_a_line_feed_is_on_its_own_line() {
    assert_eq!(
        range("a\nb", 1, 2),
        Range { start_row: 1, start_col: 1, end_row: 2, end_col: 1 }
    );
}

#[test]
fn columns_count_bytes() {
    assert_eq!(
        range("é = Foo", 5, 8),
        Range { start_row: 1, start_col: 5, end_row: 1, end_col: 9 }
    );
}

#[test]
fn span_of_the_empty_text() {
    assert_eq!(range("", 0, 0), Range { start_row: 1, start_col: 0, end_row: 1, end_col: 1 });
}

#[test]
fn span_that_ends_beyond_the_text_is_unknown() {
    assert_eq!(range("Foo", 0, 4), Range::default());
}

#[test]
fn span_that_begins_beyond_the_text_is_unknown() {
    assert_eq!(range("Foo", 7, 2), Range::default());
}

#[test]
fn the_unknown_span_is_all_zero() {
    assert_eq!(
        Range::default(),
        Range { start_row: 0, start_col: 0, end_row: 0, end_col: 0 }
    );
}

#[test]
fn the_default_source_location_equals_itself() {
    assert_eq!(SourceLocation::default(), SourceLocation::default());
}
