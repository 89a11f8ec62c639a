use qa_service::error::Error;
use qa_service::pagination::{extract_pagination, Pagination};
use qa_service::parse::IntParseError;

fn pairs(kv: &[(&str, &str)]) -> Vec<(String, String)> {
    kv.iter().map(|(k, v)| (k.to_string(), v.to_string())).collect()
}

#[test]
fn extracts_both_bounds() {
    let r = extract_pagination(pairs(&[("start", "1"), ("end", "200")]));
    assert_eq!(r, Ok(Pagination { start: 1, end: 200 }));
}

#[test]
fn both_keys_absent_is_missing_parameters() {
    let r = extract_pagination(pairs(&[]));
    assert_eq!(r, Err(Error::MissingParameters));
}

#[test]
fn absent_start_is_missing_parameters() {
    let r = extract_pagination(pairs(&[("end", "2")]));
    assert_eq!(r, Err(Error::MissingParameters));
}

#[test]
fn absent_end_is_missing_parameters() {
    let r = extract_pagination(pairs(&[("start", "2")]));
    assert_eq!(r, Err(Error::MissingParameters));
}

#[test]
fn non_numeric_start_is_parse_error() {
    let r = extract_pagination(pairs(&[("start", "abc"), ("end", "2")]));
    assert_eq!(r, Err(Error::ParseError(IntParseError::InvalidDigit)));
}

#[test]
fn non_numeric_end_is_parse_error() {
    let r = extract_pagination(pairs(&[("start", "1"), ("end", "x")]));
    assert_eq!(r, Err(Error::ParseError(IntParseError::InvalidDigit)));
}

#[test]
fn empty_value_is_parse_error() {
    let r = extract_pagination(pairs(&[("start", ""), ("end", "2")]));
    assert_eq!(r, Err(Error::ParseError(IntParseError::Empty)));
}

#[test]
fn start_past_end_is_extracted_unvalidated() {
    let r = extract_pagination(pairs(&[("start", "9"), ("end", "2")]));
    assert_eq!(r, Ok(Pagination { start: 9, end: 2 }));
}

#[test]
fn first_pair_wins_on_duplicate_keys() {
    let r = extract_pagination(pairs(&[("start", "3"), ("start", "8"), ("end", "5")]));
    assert_eq!(r, Ok(Pagination { start: 3, end: 5 }));
}
