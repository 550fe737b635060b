use bytes::Bytes;
use redis_server::errors::RESPError;
use redis_server::resp::{
    encode_bulk_string, encode_null_bulk_string, encode_simple_string, Message, RESPType, Value,
};

fn bytes(text: &[u8]) -> Bytes {
    Bytes::copy_from_slice(text)
}

#[test]
fn deserialize_rejects_an_unknown_type_byte() {
    match Message::deserialize(&bytes(b"@1\r\n")) {
        Err(RESPError::UnsupportedRESPType(byte)) => assert_eq!(byte, b'@'),
        other => panic!("unexpected: {:?}", other),
    }
}

#[test]
fn deserialize_rejects_empty_input() {
    assert!(matches!(Message::deserialize(&bytes(b"")), Err(RESPError::CRMissing)));
}

#[test]
fn deserialize_names_the_type_of_each_value() {
    let cases: Vec<(&[u8], RESPType)> = vec![
        (b"+OK\r\n", RESPType::SimpleString),
        (b"$2\r\nOK\r\n", RESPType::BulkString),
        (b":7\r\n", RESPType::Integer),
        (b"*0\r\n", RESPType::Array),
        (b"-ERR\r\n", RESPType::Error),
    ];
    for (input, expected) in cases {
        let (message, _) = Message::deserialize(&bytes(input)).unwrap();
        assert_eq!(message.resp_type, expected);
        assert_eq!(message.resp_type.byte(), input[0]);
        assert_eq!(RESPType::from_byte(input[0]).unwrap(), expected);
    }
}

#[test]
fn from_byte_rejects_a_letter() {
    assert!(matches!(RESPType::from_byte(b'x'), Err(RESPError::UnsupportedRESPType(b'x'))));
}

#[test]
fn simple_string_without_cr() {
    assert!(matches!(
        Message::deserialize_simple_string(&bytes(b"+OK")),
        Err(RESPError::CRMissing)
    ));
}

#[test]
fn simple_string_without_lf() {
    assert!(matches!(
        Message::deserialize_simple_string(&bytes(b"+OK\r")),
        Err(RESPError::LFMissing)
    ));
}

#[test]
fn simple_string_with_lf_before_cr() {
    assert!(matches!(
        Message::deserialize_simple_string(&bytes(b"+O\nK\r\n")),
        Err(RESPError::CRLFNotAtEnd)
    ));
}

#[test]
fn simple_string_with_cr_not_followed_by_lf() {
    assert!(matches!(
        Message::deserialize_simple_string(&bytes(b"+OK\rX\n")),
        Err(RESPError::CRLFNotAtEnd)
    ));
}

#[test]
fn simple_string_stops_at_the_first_crlf() {
    let result = Message::deserialize_simple_string(&bytes(b"+OK\r\n+MORE\r\n")).unwrap();
    assert_eq!(result, (Value::SimpleString(bytes(b"OK")), 5));
}

#[test]
fn error_is_decoded_like_a_simple_string() {
    let result = Message::deserialize_error(&bytes(b"-ERR boom\r\n")).unwrap();
    assert_eq!(result, (Value::Error(bytes(b"ERR boom")), 11));
}

#[test]
fn parse_len_without_cr() {
    assert!(matches!(Message::parse_len(b"$12"), Err(RESPError::CRMissing)));
    assert!(matches!(Message::parse_len(b"$"), Err(RESPError::CRMissing)));
    assert!(matches!(Message::parse_len(b""), Err(RESPError::CRMissing)));
}

#[test]
fn parse_len_without_lf() {
    assert!(matches!(Message::parse_len(b"$12\r"), Err(RESPError::LFMissing)));
    assert!(matches!(Message::parse_len(b"$12\rX"), Err(RESPError::LFMissing)));
    assert!(matches!(Message::parse_len(b"$-1\rX"), Err(RESPError::LFMissing)));
    assert!(matches!(Message::parse_len(b"$-1\r"), Err(RESPError::LFMissing)));
}

#[test]
fn parse_len_without_digits_is_zero() {
    assert_eq!(Message::parse_len(b"$\r\n").unwrap(), (Some(0), 3));
}

#[test]
fn parse_len_reports_the_text_up_to_the_first_byte_that_is_no_digit() {
    match Message::parse_len(b"$1@") {
        Err(RESPError::IntegerParseError(text)) => assert_eq!(text, b"1@".to_vec()),
        other => panic!("unexpected: {:?}", other),
    }
    match Message::parse_len(b"$12 3\r\n") {
        Err(RESPError::IntegerParseError(text)) => assert_eq!(text, b"12 ".to_vec()),
        other => panic!("unexpected: {:?}", other),
    }
}

#[test]
fn parse_len_rejects_a_length_that_usize_cannot_hold() {
    match Message::parse_len(b"$99999999999999999999999999\r\n") {
        Err(RESPError::IntegerParseError(text)) => {
            assert_eq!(text, b"99999999999999999999999999".to_vec())
        }
        other => panic!("unexpected: {:?}", other),
    }
}

#[test]
fn parse_len_reads_leading_zeros() {
    assert_eq!(Message::parse_len(b"*007\r\n").unwrap(), (Some(7), 6));
}

#[test]
fn bulk_string_shorter_than_its_length() {
    assert!(matches!(
        Message::deserialize_bulk_string(&bytes(b"$5\r\nHel")),
        Err(RESPError::CRMissing)
    ));
    assert!(matches!(
        Message::deserialize_bulk_string(&bytes(b"$5\r\nHello")),
        Err(RESPError::CRMissing)
    ));
}

#[test]
fn bulk_string_longer_than_its_length() {
    assert!(matches!(
        Message::deserialize_bulk_string(&bytes(b"$3\r\nHello\r\n")),
        Err(RESPError::CRMissing)
    ));
}

#[test]
fn bulk_string_without_lf_behind_the_payload() {
    assert!(matches!(
        Message::deserialize_bulk_string(&bytes(b"$5\r\nHello\r")),
        Err(RESPError::LFMissing)
    ));
    assert!(matches!(
        Message::deserialize_bulk_string(&bytes(b"$5\r\nHello\rX")),
        Err(RESPError::LFMissing)
    ));
}

#[test]
fn bulk_string_may_hold_crlf() {
    let result = Message::deserialize_bulk_string(&bytes(b"$4\r\na\r\nb\r\n")).unwrap();
    assert_eq!(result, (Value::BulkString(bytes(b"a\r\nb")), 10));
}

#[test]
fn integer_limits() {
    let result = Message::deserialize_integer(&bytes(b":9223372036854775807\r\n")).unwrap();
    assert_eq!(result, (Value::Integer(i64::MAX), 22));
    let result = Message::deserialize_integer(&bytes(b":-9223372036854775808\r\n")).unwrap();
    assert_eq!(result, (Value::Integer(i64::MIN), 23));
    assert!(matches!(
        Message::deserialize_integer(&bytes(b":9223372036854775808\r\n")),
        Err(RESPError::IntegerParseError(_))
    ));
    assert!(matches!(
        Message::deserialize_integer(&bytes(b":+9223372036854775808\r\n")),
        Err(RESPError::IntegerParseError(_))
    ));
    assert!(matches!(
        Message::deserialize_integer(&bytes(b":-9223372036854775809\r\n")),
        Err(RESPError::IntegerParseError(_))
    ));
}

#[test]
fn integer_with_two_signs() {
    assert!(matches!(
        Message::deserialize_integer(&bytes(b":+-1\r\n")),
        Err(RESPError::NegativeLength)
    ));
    assert!(matches!(
        Message::deserialize_integer(&bytes(b":--2\r\n")),
        Err(RESPError::NegativeLength)
    ));
    assert!(matches!(
        Message::deserialize_integer(&bytes(b":++2\r\n")),
        Err(RESPError::IntegerParseError(_))
    ));
}

#[test]
fn integer_with_a_letter() {
    match Message::deserialize_integer(&bytes(b":-12a\r\n")) {
        Err(RESPError::IntegerParseError(text)) => assert_eq!(text, b"12a".to_vec()),
        other => panic!("unexpected: {:?}", other),
    }
}

#[test]
fn integer_without_digits_is_zero() {
    let result = Message::deserialize_integer(&bytes(b":\r\n")).unwrap();
    assert_eq!(result, (Value::Integer(0), 3));
    let result = Message::deserialize_integer(&bytes(b":-0\r\n")).unwrap();
    assert_eq!(result, (Value::Integer(0), 5));
}

#[test]
fn array_with_fewer_elements_than_its_count() {
    assert!(matches!(
        Message::deserialize_array(&bytes(b"*2\r\n:1\r\n")),
        Err(RESPError::CRMissing)
    ));
}

#[test]
fn array_with_an_element_of_unknown_type() {
    assert!(matches!(
        Message::deserialize_array(&bytes(b"*2\r\n:1\r\n?\r\n")),
        Err(RESPError::UnsupportedRESPType(b'?'))
    ));
}

#[test]
fn array_leaves_what_follows_it() {
    let result = Message::deserialize_array(&bytes(b"*1\r\n:1\r\n:2\r\n")).unwrap();
    assert_eq!(result, (Value::Array(vec![Value::Integer(1)]), 8));
}

#[test]
fn encode_replies() {
    assert_eq!(encode_simple_string(b"PONG"), b"+PONG\r\n".to_vec());
    assert_eq!(encode_simple_string(b""), b"+\r\n".to_vec());
    assert_eq!(encode_bulk_string(b"Hey"), b"$3\r\nHey\r\n".to_vec());
    assert_eq!(encode_bulk_string(b""), b"$0\r\n\r\n".to_vec());
    assert_eq!(encode_bulk_string(b"Hello, world!"), b"$13\r\nHello, world!\r\n".to_vec());
    assert_eq!(encode_bulk_string(&[b'x'; 120]).len(), 1 + 3 + 2 + 120 + 2);
    assert_eq!(encode_null_bulk_string(), b"$-1\r\n".to_vec());
}

#[test]
fn serialize_each_variant() {
    assert_eq!(Value::SimpleString(bytes(b"OK")).serialize(), b"+OK\r\n".to_vec());
    assert_eq!(Value::Error(bytes(b"ERR x")).serialize(), b"-ERR x\r\n".to_vec());
    assert_eq!(Value::Integer(0).serialize(), b":0\r\n".to_vec());
    assert_eq!(Value::Integer(1000).serialize(), b":1000\r\n".to_vec());
    assert_eq!(Value::Integer(-1000).serialize(), b":-1000\r\n".to_vec());
    assert_eq!(Value::Integer(i64::MIN).serialize(), b":-9223372036854775808\r\n".to_vec());
    assert_eq!(Value::BulkString(bytes(b"hello")).serialize(), b"$5\r\nhello\r\n".to_vec());
    assert_eq!(Value::NullBulkString.serialize(), b"$-1\r\n".to_vec());
    assert_eq!(Value::NullArray.serialize(), b"*-1\r\n".to_vec());
    assert_eq!(Value::Array(vec![]).serialize(), b"*0\r\n".to_vec());
    assert_eq!(
        Value::Array(vec![Value::Integer(1), Value::BulkString(bytes(b"a"))]).serialize(),
        b"*2\r\n:1\r\n$1\r\na\r\n".to_vec()
    );
}

#[test]
fn round_trip_of_a_nested_value() {
    let value = Value::Array(vec![
        Value::Array(vec![Value::Integer(1), Value::Integer(-2), Value::Integer(i64::MIN)]),
        Value::Array(vec![
            Value::SimpleString(bytes(b"Hello")),
            Value::Error(bytes(b"World")),
            Value::NullArray,
            Value::Array(vec![]),
        ]),
        Value::NullBulkString,
        Value::BulkString(bytes(b"")),
        Value::BulkString(bytes(b"with\r\ninside")),
        Value::Integer(i64::MAX),
    ]);
    let encoded = value.serialize();
    let mut followed = encoded.clone();
    followed.extend_from_slice(b"+tail\r\n");
    let (message, len) = Message::deserialize(&Bytes::from(followed)).unwrap();
    assert_eq!(len, encoded.len());
    assert_eq!(message.data, value);
    assert_eq!(message.resp_type, RESPType::Array);
}

#[test]
fn round_trip_of_each_variant() {
    let values = vec![
        Value::SimpleString(bytes(b"")),
        Value::SimpleString(bytes(b"OK")),
        Value::Error(bytes(b"ERR unknown command")),
        Value::Integer(0),
        Value::Integer(-1),
        Value::Integer(42),
        Value::BulkString(bytes(b"0123456789")),
        Value::NullBulkString,
        Value::Array((0..12).map(|_| Value::NullBulkString).collect()),
        Value::NullArray,
    ];
    for value in values {
        let encoded = value.serialize();
        let (message, len) = Message::deserialize(&Bytes::from(encoded.clone())).unwrap();
        assert_eq!(len, encoded.len());
        assert_eq!(message.data, value);
    }
}

#[test]
fn a_text_with_cr_does_not_round_trip() {
    let value = Value::SimpleString(bytes(b"a\rb"));
    let encoded = value.serialize();
    assert_eq!(encoded, b"+a\rb\r\n".to_vec());
    assert!(matches!(
        Message::deserialize(&Bytes::from(encoded)),
        Err(RESPError::CRLFNotAtEnd)
    ));
}
