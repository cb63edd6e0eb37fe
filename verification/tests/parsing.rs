use username_history::json::JsonVal;
use username_history::parse::{extract_username, parse_usernames, ParseError};
use username_history::process_response;

#[test]
fn parse_two_names() {
    let body = r#"{"data": [{"name": "a"}, {"name": "b"}]}"#;
    assert_eq!(
        parse_usernames(body),
        Ok(vec![String::from("a"), String::from("b")])
    );
}

#[test]
fn parse_preserves_order_and_duplicates() {
    let body = r#"{"data": [{"name": "b"}, {"name": "a"}, {"name": "b"}]}"#;
    assert_eq!(
        parse_usernames(body),
        Ok(vec![String::from("b"), String::from("a"), String::from("b")])
    );
}

#[test]
fn parse_ignores_other_fields() {
    let body = r#"{"data": [{"requestedUsername": "x", "name": "a", "created": "2020-01-01"}]}"#;
    assert_eq!(parse_usernames(body), Ok(vec![String::from("a")]));
}

#[test]
fn parse_empty_data() {
    assert_eq!(parse_usernames(r#"{"data": []}"#), Ok(vec![]));
}

#[test]
fn parse_missing_data_key() {
    assert_eq!(parse_usernames("{}"), Err(ParseError::MissingDataField));
    assert_eq!(
        parse_usernames(r#"{"other": 1}"#),
        Err(ParseError::MissingDataField)
    );
}

#[test]
fn parse_top_level_not_object() {
    assert_eq!(
        parse_usernames(r#"[{"name": "a"}]"#),
        Err(ParseError::MissingDataField)
    );
    assert_eq!(parse_usernames("3"), Err(ParseError::MissingDataField));
}

#[test]
fn parse_data_not_array() {
    assert_eq!(
        parse_usernames(r#"{"data": "x"}"#),
        Err(ParseError::DataNotArray)
    );
    assert_eq!(
        parse_usernames(r#"{"data": {"name": "a"}}"#),
        Err(ParseError::DataNotArray)
    );
}

#[test]
fn parse_entry_without_name_fails_whole_parse() {
    let body = r#"{"data": [{"name": "a"}, {"foo": 1}]}"#;
    assert_eq!(parse_usernames(body), Err(ParseError::InvalidEntry));
}

#[test]
fn parse_entry_name_not_string() {
    let body = r#"{"data": [{"name": 5}]}"#;
    assert_eq!(parse_usernames(body), Err(ParseError::InvalidEntry));
}

#[test]
fn parse_entry_not_object() {
    let body = r#"{"data": ["a"]}"#;
    assert_eq!(parse_usernames(body), Err(ParseError::InvalidEntry));
}

#[test]
fn parse_invalid_json() {
    assert_eq!(parse_usernames("not json"), Err(ParseError::InvalidJson));
    assert_eq!(parse_usernames(""), Err(ParseError::InvalidJson));
    assert_eq!(
        parse_usernames(r#"{"data": ["#),
        Err(ParseError::InvalidJson)
    );
}

#[test]
fn extract_username_from_entry() {
    let entry = JsonVal::Obj(vec![
        (String::from("created"), JsonVal::Num),
        (String::from("name"), JsonVal::Str(String::from("alpha"))),
    ]);
    assert_eq!(extract_username(&entry), Ok(String::from("alpha")));
}

#[test]
fn extract_username_missing_field() {
    let entry = JsonVal::Obj(vec![(String::from("foo"), JsonVal::Num)]);
    assert_eq!(extract_username(&entry), Err(ParseError::InvalidEntry));
    assert_eq!(
        extract_username(&JsonVal::Str(String::from("a"))),
        Err(ParseError::InvalidEntry)
    );
}

#[test]
fn process_response_success() {
    let body = r#"{"data": [{"name": "x"}, {"name": "y"}]}"#;
    assert_eq!(process_response(body), Ok(String::from("x\ny\n")));
}

#[test]
fn process_response_empty_data_still_succeeds() {
    assert_eq!(process_response(r#"{"data": []}"#), Ok(String::new()));
}

#[test]
fn process_response_failure_writes_nothing() {
    assert_eq!(process_response("{}"), Err(ParseError::MissingDataField));
    assert_eq!(
        process_response(r#"{"data": "x"}"#),
        Err(ParseError::DataNotArray)
    );
}
