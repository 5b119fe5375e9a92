use game_of_life::parse::parse_coord_line;
use game_of_life::parse::parse_size_line;
use game_of_life::parse::ParseError;

#[test]
fn size_line_parses_two_numbers() {
    assert_eq!(parse_size_line("5:5"), Ok((5, 5)));
    assert_eq!(parse_size_line("128:7"), Ok((128, 7)));
    assert_eq!(parse_size_line("007:05"), Ok((7, 5)));
    assert_eq!(parse_size_line("0:0"), Ok((0, 0)));
}

#[test]
fn size_line_without_separator_is_rejected() {
    assert_eq!(parse_size_line("5x5"), Err(ParseError::MissingSeparator));
    assert_eq!(parse_size_line("55"), Err(ParseError::MissingSeparator));
    assert_eq!(parse_size_line(""), Err(ParseError::MissingSeparator));
}

#[test]
fn size_line_with_bad_component_is_rejected() {
    assert_eq!(parse_size_line(":5"), Err(ParseError::InvalidNumber));
    assert_eq!(parse_size_line("5:"), Err(ParseError::InvalidNumber));
    assert_eq!(parse_size_line("a:5"), Err(ParseError::InvalidNumber));
    assert_eq!(parse_size_line("5:b"), Err(ParseError::InvalidNumber));
    assert_eq!(parse_size_line("5:5:5"), Err(ParseError::InvalidNumber));
    assert_eq!(parse_size_line("-1:5"), Err(ParseError::InvalidNumber));
    assert_eq!(parse_size_line(" 5:5"), Err(ParseError::InvalidNumber));
}

#[test]
fn size_line_overflow_is_rejected() {
    let max = usize::MAX;
    assert_eq!(parse_size_line(&format!("{}:1", max)), Ok((max, 1)));
    assert_eq!(
        parse_size_line("18446744073709551616:1"),
        Err(ParseError::InvalidNumber)
    );
    assert_eq!(
        parse_size_line("99999999999999999999999:1"),
        Err(ParseError::InvalidNumber)
    );
}

#[test]
fn coord_line_parses_two_numbers() {
    assert_eq!(parse_coord_line("1,2"), Ok((1, 2)));
    assert_eq!(parse_coord_line("0,0"), Ok((0, 0)));
}

#[test]
fn coord_line_without_comma_is_rejected() {
    assert_eq!(parse_coord_line("1 2"), Err(ParseError::MissingSeparator));
    assert_eq!(parse_coord_line("1:2"), Err(ParseError::MissingSeparator));
}

#[test]
fn coord_line_with_bad_component_is_rejected() {
    assert_eq!(parse_coord_line("1,"), Err(ParseError::InvalidNumber));
    assert_eq!(parse_coord_line(",2"), Err(ParseError::InvalidNumber));
    assert_eq!(parse_coord_line("one,2"), Err(ParseError::InvalidNumber));
}
