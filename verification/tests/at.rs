//! AT command and response lines.

use simble::classic::at::{
    parse_parameters, tokenize_parameters, AtCommand, AtParameter, AtResponse, AtSubCode,
};

#[test]
fn test_tokenize_parameters() {
    assert_eq!(
        tokenize_parameters(b"1, 2, 3").unwrap(),
        vec![
            b"1".to_vec(),
            b",".to_vec(),
            b"2".to_vec(),
            b",".to_vec(),
            b"3".to_vec()
        ]
    );
    assert_eq!(
        tokenize_parameters(b"\"1, 2, 3\"").unwrap(),
        vec![b"1, 2, 3".to_vec()]
    );
    assert_eq!(
        tokenize_parameters(b"(1, \"2, 3\")").unwrap(),
        vec![
            b"(".to_vec(),
            b"1".to_vec(),
            b",".to_vec(),
            b"2, 3".to_vec(),
            b")".to_vec(),
        ]
    );
}

#[test]
fn test_parse_parameters() {
    assert_eq!(
        parse_parameters(b"1, 2, 3").unwrap(),
        vec![
            AtParameter::Value(b"1".to_vec()),
            AtParameter::Value(b"2".to_vec()),
            AtParameter::Value(b"3".to_vec()),
        ]
    );
    assert_eq!(
        parse_parameters(b"1,, 3").unwrap(),
        vec![
            AtParameter::Value(b"1".to_vec()),
            AtParameter::Value(Vec::new()),
            AtParameter::Value(b"3".to_vec()),
        ]
    );
    assert_eq!(
        parse_parameters(b"\"1, 2, 3\"").unwrap(),
        vec![AtParameter::Value(b"1, 2, 3".to_vec())]
    );
    assert_eq!(
        parse_parameters(b"1, (2, (3))").unwrap(),
        vec![
            AtParameter::Value(b"1".to_vec()),
            AtParameter::List(vec![
                AtParameter::Value(b"2".to_vec()),
                AtParameter::List(vec![AtParameter::Value(b"3".to_vec())]),
            ]),
        ]
    );
    assert_eq!(
        parse_parameters(b"1, (2, \"3, 4\"), 5").unwrap(),
        vec![
            AtParameter::Value(b"1".to_vec()),
            AtParameter::List(vec![
                AtParameter::Value(b"2".to_vec()),
                AtParameter::Value(b"3, 4".to_vec()),
            ]),
            AtParameter::Value(b"5".to_vec()),
        ]
    );
}

#[test]
fn test_parse_parameters_unbalanced_parens_rejected() {
    assert!(parse_parameters(b"1, (2, 3").is_err());
    assert!(parse_parameters(b"1, 2)").is_err());
}

#[test]
fn test_at_command_basic_forms() {
    let cmd = AtCommand::parse_from(b"ATA").unwrap();
    assert_eq!(cmd.code, "A");
    assert_eq!(cmd.sub_code, AtSubCode::Plain);
    assert!(cmd.parameters.is_empty());

    let cmd = AtCommand::parse_from(b"ATD123456789").unwrap();
    assert_eq!(cmd.code, "D");
    assert_eq!(
        cmd.parameters,
        vec![AtParameter::Value(b"123456789".to_vec())]
    );
}

#[test]
fn test_at_command_extended_forms() {
    let cmd = AtCommand::parse_from(b"AT+BRSF=31").unwrap();
    assert_eq!(cmd.code, "BRSF");
    assert_eq!(cmd.sub_code, AtSubCode::Write);
    assert_eq!(cmd.parameters, vec![AtParameter::Value(b"31".to_vec())]);

    let cmd = AtCommand::parse_from(b"AT+CIND=?").unwrap();
    assert_eq!(cmd.code, "CIND");
    assert_eq!(cmd.sub_code, AtSubCode::Test);

    let cmd = AtCommand::parse_from(b"AT+CIND?").unwrap();
    assert_eq!(cmd.code, "CIND");
    assert_eq!(cmd.sub_code, AtSubCode::Read);

    let cmd = AtCommand::parse_from(b"AT+CMER=3,,,1").unwrap();
    assert_eq!(cmd.code, "CMER");
    assert_eq!(
        cmd.parameters,
        vec![
            AtParameter::Value(b"3".to_vec()),
            AtParameter::Value(Vec::new()),
            AtParameter::Value(Vec::new()),
            AtParameter::Value(b"1".to_vec()),
        ]
    );
}

#[test]
fn test_at_command_invalid_rejected() {
    assert!(AtCommand::parse_from(b"HELLO").is_err());
    assert!(AtCommand::parse_from(b"AT+").is_err());
}

#[test]
fn test_at_response_parse() {
    let response = AtResponse::parse_from(b"+BRSF: 31").unwrap();
    assert_eq!(response.code, "+BRSF");
    assert_eq!(
        response.parameters,
        vec![AtParameter::Value(b"31".to_vec())]
    );

    let response = AtResponse::parse_from(b"OK").unwrap();
    assert_eq!(response.code, "OK");
    assert!(response.parameters.is_empty());
}

#[test]
fn parameters_are_read_as_text_and_numbers() {
    let parameters = parse_parameters(b"12,\"\xC3\xA9\",x,(1),4294967296").unwrap();
    assert_eq!(parameters[0].as_u32(), Some(12));
    assert_eq!(parameters[1].as_str(), Some("\u{E9}"));
    assert_eq!(parameters[2].as_u32(), None);
    assert_eq!(parameters[3].as_list().map(|list| list.len()), Some(1));
    assert_eq!(parameters[3].as_value(), None);
    assert_eq!(parameters[4].as_u32(), None);
    // Bytes that are no text.
    assert_eq!(AtParameter::Value(vec![b'a', 0xFF]).as_str(), None);
    assert_eq!(AtParameter::Value(vec![b'a']).as_value(), Some(&b"a"[..]));
}

#[test]
fn spaces_are_ignored_outside_quotes() {
    assert_eq!(parse_parameters(b" 1 , 2 ").unwrap(), parse_parameters(b"1,2").unwrap());
    assert_ne!(parse_parameters(b"\"a b\"").unwrap(), parse_parameters(b"\"ab\"").unwrap());
}

#[test]
fn malformed_lines_say_why() {
    let text = |line: &[u8]| parse_parameters(line).unwrap_err().to_text();
    for line in [&b"(1"[..], &b"1)"[..], &b"a\"b\""[..]] {
        assert!(text(line).starts_with("AT parsing error: "));
    }
    assert!(AtCommand::parse_from(b"hello").is_err());
}

#[test]
fn punctuation_in_quotes_is_text() {
    assert_eq!(
        parse_parameters(b"1,\",\",2").unwrap(),
        vec![
            AtParameter::Value(b"1".to_vec()),
            AtParameter::Value(b",".to_vec()),
            AtParameter::Value(b"2".to_vec()),
        ]
    );
    assert_eq!(
        parse_parameters(b"(\"(\",\")\")").unwrap(),
        vec![AtParameter::List(vec![
            AtParameter::Value(b"(".to_vec()),
            AtParameter::Value(b")".to_vec()),
        ])]
    );
}
