use kindle_highlights::header::parse_first_line;
use kindle_highlights::location::{parse_location, Location};
use kindle_highlights::metadata::{parse_second_line, parse_second_line_logged};
use kindle_highlights::diagnostics::WarningKind;
use kindle_highlights::datetime::parse_datetime;
use kindle_highlights::chars::parse_i32;

#[test]
fn location_round_trip() {
    let loc = parse_location("4131-4131".to_string()).unwrap();
    assert_eq!(loc, Location { start: 4131, end: 4131 });
}

#[test]
fn location_distinct_ends() {
    let loc = parse_location("138-140".to_string()).unwrap();
    assert_eq!(loc, Location { start: 138, end: 140 });
}

#[test]
fn location_without_dash_fails() {
    assert_eq!(parse_location("4131".to_string()), None);
}

#[test]
fn location_non_numeric_fails() {
    assert_eq!(parse_location("a-b".to_string()), None);
    assert_eq!(parse_location("12-".to_string()), None);
    assert_eq!(parse_location("-12".to_string()), None);
}

#[test]
fn header_comma_name_is_reordered() {
    let (book, author) = parse_first_line("Sample Book (Smith, John)".to_string()).unwrap();
    assert_eq!(book, "Sample Book");
    assert_eq!(author, "John Smith");
}

#[test]
fn header_space_name_keeps_order() {
    let (book, author) = parse_first_line("Sample Book (John Smith)".to_string()).unwrap();
    assert_eq!(book, "Sample Book");
    assert_eq!(author, "John Smith");
}

#[test]
fn header_fallback_keeps_parenthetical_verbatim() {
    let (book, author) = parse_first_line("Some Title (Unparseable ; blob)".to_string()).unwrap();
    assert_eq!(book, "Some Title");
    assert_eq!(author, "Unparseable ; blob");
}

#[test]
fn header_single_word_parenthetical() {
    let (book, author) = parse_first_line("A Book (Someone)".to_string()).unwrap();
    assert_eq!(book, "A Book");
    assert_eq!(author, "Someone");
}

#[test]
fn header_without_parenthetical_is_all_title() {
    let (book, author) = parse_first_line("Just a bare title".to_string()).unwrap();
    assert_eq!(book, "Just a bare title");
    assert_eq!(author, "Unknown");
}

#[test]
fn header_anchors_at_last_fitting_parenthetical() {
    // the comma convention backtracks to the parenthetical that fits it
    let (book, author) = parse_first_line("T (a, b) (c)".to_string()).unwrap();
    assert_eq!(book, "T");
    assert_eq!(author, "b) (c a");
    // and otherwise the rightmost parenthetical wins
    let (book, author) = parse_first_line("Title (note) (Doe, Jane)".to_string()).unwrap();
    assert_eq!(book, "Title (note)");
    assert_eq!(author, "Jane Doe");
}

#[test]
fn header_keeps_the_book_title_non_empty() {
    // a line opening with the parenthetical would leave the title empty;
    // the whole line becomes the title instead
    let (book, author) = parse_first_line(" (Smith, John)".to_string()).unwrap();
    assert_eq!(book, " (Smith, John)");
    assert_eq!(author, "Unknown");
}

#[test]
fn header_empty_line_fails() {
    assert_eq!(parse_first_line(String::new()), None);
}

#[test]
fn metadata_with_page() {
    let line = "- Your Highlight on page 293 | Location 4131-4131 | Added on Monday, December 19, 2022 12:50:19 PM";
    let (page, location, date_added) = parse_second_line(line.to_string()).unwrap();
    assert_eq!(page, Some(293));
    assert_eq!(location, Location { start: 4131, end: 4131 });
    assert_eq!(date_added, 1671454219);
}

#[test]
fn metadata_without_page() {
    let line = "- Your Highlight on Location 138-140 | Added on Monday, December 19, 2022 10:29:07 PM";
    let (page, location, date_added) = parse_second_line(line.to_string()).unwrap();
    assert_eq!(page, None);
    assert_eq!(location, Location { start: 138, end: 140 });
    assert_eq!(date_added, 1671488947);
}

#[test]
fn metadata_lower_case_verbs() {
    let line = "- Your highlight on location 12-13 | Added on Monday, December 19, 2022 10:29:07 PM";
    let (page, location, date_added) = parse_second_line(line.to_string()).unwrap();
    assert_eq!(page, None);
    assert_eq!(location, Location { start: 12, end: 13 });
    assert_eq!(date_added, 1671488947);
}

#[test]
fn metadata_bad_location_defaults_to_zero() {
    let line = "- Your Highlight on page 5 | Location nowhere | Added on Monday, December 19, 2022 12:50:19 PM";
    let (page, location, date_added) = parse_second_line(line.to_string()).unwrap();
    assert_eq!(page, Some(5));
    assert_eq!(location, Location { start: 0, end: 0 });
    assert_eq!(date_added, 1671454219);
}

#[test]
fn metadata_bad_date_defaults_to_zero() {
    let line = "- Your Highlight on Location 1-2 | Added on someday, maybe";
    let (page, location, date_added) = parse_second_line(line.to_string()).unwrap();
    assert_eq!(page, None);
    assert_eq!(location, Location { start: 1, end: 2 });
    assert_eq!(date_added, 0);
}

#[test]
fn metadata_date_group_extends_to_last_marker() {
    // the date group is cut at the rightmost " | Added on "
    let line = "- Your Highlight on Location 2-3 | Added on Monday, 19 December 2022 22:29:07 | Added on nonsense";
    let (page, location, date_added) = parse_second_line(line.to_string()).unwrap();
    assert_eq!(page, None);
    assert_eq!(location, Location { start: 0, end: 0 });
    assert_eq!(date_added, 0);
}

#[test]
fn metadata_unrecognized_line_fails() {
    assert_eq!(parse_second_line("- Your Note on page 1".to_string()), None);
    assert_eq!(parse_second_line("anything else".to_string()), None);
}

#[test]
fn metadata_bad_page_fails_cleanly() {
    // a first-shape line whose page is not a valid integer drops the block
    assert_eq!(
        parse_second_line(
            "- Your Highlight on page many | Location 4131-4131 | Added on Monday, December 19, 2022 12:50:19 PM"
                .to_string()
        ),
        None
    );
    assert_eq!(
        parse_second_line(
            "- Your Highlight on page 99999999999 | Location 1-2 | Added on X".to_string()
        ),
        None
    );
}

#[test]
fn metadata_soft_failures_produce_warnings() {
    let (r, warns) = parse_second_line_logged(
        "- Your Highlight on page 5 | Location nowhere | Added on someday".to_string(),
    );
    assert!(r.is_some());
    assert_eq!(warns.len(), 2);
    assert_eq!(warns[0].kind, WarningKind::LocationRange);
    assert_eq!(warns[0].text, "nowhere");
    assert_eq!(warns[1].kind, WarningKind::DateAdded);
    assert_eq!(warns[1].text, "someday");

    let (r, warns) = parse_second_line_logged("no shape at all".to_string());
    assert_eq!(r, None);
    assert_eq!(warns.len(), 1);
    assert_eq!(warns[0].kind, WarningKind::MetadataLine);
    assert_eq!(warns[0].text, "no shape at all");

    let (r, warns) = parse_second_line_logged(
        "- Your Highlight on Location 1-2 | Added on Monday, 19 December 2022 22:29:07"
            .to_string(),
    );
    assert!(r.is_some());
    assert_eq!(warns.len(), 0);
}

#[test]
fn datetime_twelve_hour_format() {
    assert_eq!(
        parse_datetime("Monday, December 19, 2022 12:50:19 PM".to_string()),
        1671454219
    );
}

#[test]
fn datetime_twenty_four_hour_format() {
    assert_eq!(
        parse_datetime("Monday, 19 December 2022 22:29:07".to_string()),
        1671488947
    );
}

#[test]
fn datetime_unparseable_is_zero() {
    assert_eq!(parse_datetime("the nineteenth of December".to_string()), 0);
    assert_eq!(parse_datetime(String::new()), 0);
}

#[test]
fn integer_parsing_matches_std() {
    for s in ["0", "293", "+5", "-12", "2147483647", "-2147483648", "007"] {
        assert_eq!(parse_i32(s), s.parse::<i32>().ok(), "input {:?}", s);
    }
    for s in ["", "+", "-", "abc", "12a", " 3", "2147483648", "-2147483649", "99999999999"] {
        assert_eq!(parse_i32(s), None, "input {:?}", s);
    }
}
