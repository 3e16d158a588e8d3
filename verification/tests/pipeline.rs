use kindle_highlights::block::process_item;
use kindle_highlights::highlight::Highlight;
use kindle_highlights::location::Location;
use kindle_highlights::diagnostics::WarningKind;
use kindle_highlights::pipeline::{
    filter_highlights, process_document, process_document_logged, run_pipeline, split_document,
};

const SAMPLE: &str = "Sample Book (Smith, John)\n\
- Your Highlight on page 293 | Location 4131-4131 | Added on Monday, December 19, 2022 12:50:19 PM\n\
\n\
A memorable passage.\n\
==========\n\
Another Title (Jane Doe)\n\
- Your Highlight on Location 138-140 | Added on Monday, December 19, 2022 10:29:07 PM\n\
\n\
Second quote.\n\
==========\n";

#[test]
fn block_parses_to_record() {
    let block = "Sample Book (Smith, John)\n\
- Your Highlight on page 293 | Location 4131-4131 | Added on Monday, December 19, 2022 12:50:19 PM\n\
A memorable passage.";
    let h = process_item(block.to_string()).unwrap();
    assert_eq!(h.book, "Sample Book");
    assert_eq!(h.author, "John Smith");
    assert_eq!(h.quote, "A memorable passage.");
    assert_eq!(h.page, Some(293));
    assert_eq!(h.location, Location { start: 4131, end: 4131 });
    assert_eq!(h.date_added, 1671454219);
}

#[test]
fn block_with_two_lines_is_dropped() {
    let block = "Sample Book (Smith, John)\n\
- Your Highlight on page 293 | Location 4131-4131 | Added on Monday, December 19, 2022 12:50:19 PM\n";
    assert_eq!(process_item(block.to_string()), None);
}

#[test]
fn block_strips_byte_order_marks_and_carriage_returns() {
    let block = "\u{feff}Sample Book (Smith, John)\r\n\
- Your Highlight on Location 1-2 | Added on Monday, December 19, 2022 10:29:07 PM\r\n\
The quote.\r\n";
    let h = process_item(block.to_string()).unwrap();
    assert_eq!(h.book, "Sample Book");
    assert_eq!(h.author, "John Smith");
    assert_eq!(h.quote, "The quote.");
}

#[test]
fn block_with_unrecognized_metadata_is_dropped() {
    let block = "Sample Book (Smith, John)\nnot a metadata line\nThe quote.";
    assert_eq!(process_item(block.to_string()), None);
}

#[test]
fn splitting_counts_chunks() {
    let chunks = split_document(SAMPLE);
    assert_eq!(chunks.len(), 3);
    assert_eq!(chunks[2], "\n");
    assert_eq!(split_document("").len(), 1);
}

#[test]
fn document_yields_records_in_order() {
    let records = process_document(SAMPLE);
    assert_eq!(records.len(), 2);
    assert_eq!(records[0].book, "Sample Book");
    assert_eq!(records[0].author, "John Smith");
    assert_eq!(records[1].book, "Another Title");
    assert_eq!(records[1].author, "Jane Doe");
    assert_eq!(records[1].page, None);
    assert_eq!(records[1].location, Location { start: 138, end: 140 });
    assert_eq!(records[1].date_added, 1671488947);
    // never more records than delimiter-separated chunks
    assert!(records.len() <= split_document(SAMPLE).len());
}

#[test]
fn block_with_bad_page_is_dropped_not_fatal() {
    let text = "Sample Book (Smith, John)\n\
- Your Highlight on page many | Location 1-2 | Added on Monday, December 19, 2022 12:50:19 PM\n\
The quote.\n\
==========\n\
Another Title (Jane Doe)\n\
- Your Highlight on Location 138-140 | Added on Monday, December 19, 2022 10:29:07 PM\n\
Second quote.\n";
    let records = process_document(text);
    assert_eq!(records.len(), 1);
    assert_eq!(records[0].book, "Another Title");
}

#[test]
fn filter_keeps_matching_books() {
    let records = process_document(SAMPLE);
    let kept = filter_highlights(records, "^Sample").unwrap();
    assert_eq!(kept.len(), 1);
    assert_eq!(kept[0].book, "Sample Book");
}

#[test]
fn filter_with_no_match_is_empty_not_an_error() {
    let records = process_document(SAMPLE);
    let kept = filter_highlights(records, "zzz-no-such-book").unwrap();
    assert_eq!(kept, Vec::<Highlight>::new());
}

#[test]
fn filter_with_invalid_pattern_fails() {
    let records = process_document(SAMPLE);
    assert!(records.len() > 0);
    assert_eq!(filter_highlights(records, "("), None);
    // with nothing to test the pattern on, nothing fails
    assert_eq!(filter_highlights(Vec::new(), "(").unwrap().len(), 0);
}

#[test]
fn pipeline_is_idempotent() {
    let once = run_pipeline(SAMPLE, Some("Book")).unwrap();
    let twice = run_pipeline(SAMPLE, Some("Book")).unwrap();
    assert_eq!(once, twice);
    let plain_once = run_pipeline(SAMPLE, None).unwrap();
    let plain_twice = run_pipeline(SAMPLE, None).unwrap();
    assert_eq!(plain_once, plain_twice);
}

#[test]
fn pipeline_handles_byte_order_mark_and_crlf_export() {
    let text = "\u{feff}Book One (Smith, John)\r\n\
- Your Highlight on page 1 | Location 10-12 | Added on Monday, December 19, 2022 12:50:19 PM\r\n\
\r\n\
First quote.\r\n\
==========\r\n\
\u{feff}Book Two (Jane Doe)\r\n\
- Your highlight on Location 20-21 | Added on Monday, 19 December 2022 22:29:07\r\n\
\r\n\
Second quote.\r\n\
==========\r\n";
    let records = process_document(text);
    assert_eq!(records.len(), 2);
    assert_eq!(records[0].book, "Book One");
    assert_eq!(records[0].quote, "First quote.");
    assert_eq!(records[0].page, Some(1));
    assert_eq!(records[1].book, "Book Two");
    assert_eq!(records[1].author, "Jane Doe");
    assert_eq!(records[1].quote, "Second quote.");
    assert_eq!(records[1].date_added, 1671488947);
}

#[test]
fn document_warnings_are_collected_in_order() {
    let text = "Book (A B)\n\
- Your Highlight on Location nowhere | Added on bad date\n\
Quote\n\
==========\n\
too short\n\
==========\n\
X (Y Z)\n\
bad meta\n\
quote\n";
    let (records, warns) = process_document_logged(text);
    assert_eq!(records.len(), 1);
    assert_eq!(records[0].location, Location { start: 0, end: 0 });
    assert_eq!(records[0].date_added, 0);
    assert_eq!(warns.len(), 3);
    assert_eq!(warns[0].kind, WarningKind::LocationRange);
    assert_eq!(warns[0].text, "nowhere");
    assert_eq!(warns[1].kind, WarningKind::DateAdded);
    assert_eq!(warns[1].text, "bad date");
    assert_eq!(warns[2].kind, WarningKind::MetadataLine);
    assert_eq!(warns[2].text, "bad meta");
}

#[test]
fn pipeline_without_filter_keeps_everything() {
    let all = run_pipeline(SAMPLE, None).unwrap();
    assert_eq!(all.len(), 2);
}
