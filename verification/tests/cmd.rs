use bytes::Bytes;
use redis_server::cmd::{handle_ping, handle_request, handle_request_at};
use redis_server::errors::CmdError;
use redis_server::resp::Value;
use redis_server::storage::{InMemoryStorage, Storage};

#[test]
fn handle_ping_ping_pong() {
    let input = "$4\r\nPING\r\n";
    let input = Value::BulkString(Bytes::from(input));
    let input = vec![input];
    let result = handle_ping(&input).unwrap();

    let expected = Bytes::from("+PONG\r\n");

    assert_eq!(expected, result);
}

#[test]
fn handle_ping_ping_with_arg() {
    let cmd = Value::BulkString(Bytes::from("PING"));
    let arg = Value::BulkString(Bytes::from("Hello, world!"));
    let words = vec![cmd, arg];
    let result = handle_ping(&words).unwrap();

    let expected = Bytes::from("$13\r\nHello, world!\r\n");

    assert_eq!(expected, result);
}

#[test]
fn handle_request_ping_pong_missing_crlf_at_end() {
    let mut storage = InMemoryStorage::new();
    let input = "*1\r\n$4\r\nPING";
    let input = Bytes::from(input);
    let result = handle_request(&mut storage, &input);

    if let Err(CmdError::CRLFNotAtEnd) = result {
    } else {
        assert_eq!(0, 1)
    };
}

#[test]
fn handle_request_ping_pong_pass() {
    let mut storage = InMemoryStorage::new();
    let input = "*1\r\n$4\r\nPING\r\n";
    let input = Bytes::from(input);
    let result = handle_request(&mut storage, &input).unwrap();

    let expected = Bytes::from("+PONG\r\n");

    assert_eq!(expected, result);
}

#[test]
fn handle_request_ping_pong_fail_missing_array_len() {
    let mut storage = InMemoryStorage::new();
    let input = "$4\r\nPING\r\n";
    let input = Bytes::from(input);
    let result = handle_request(&mut storage, &input);

    if let Err(CmdError::CmdNotArray) = result {
    } else {
        assert_eq!(0, 1)
    };
}

#[test]
fn handle_request_ping_ping_ping() {
    let mut storage = InMemoryStorage::new();
    let input = "*3\r\n$4\r\nPinG\r\n$4\r\nPinG\r\n$4\r\nPinG\r\n";
    let input = Bytes::from(input);
    let result = handle_request(&mut storage, &input).unwrap();

    let expected = Bytes::from("+PONG\r\n+PONG\r\n+PONG\r\n");

    assert_eq!(expected, result);
}

#[test]
fn handle_request_ping_with_arg() {
    let mut storage = InMemoryStorage::new();
    let input = "*2\r\n$4\r\nPinG\r\n$13\r\nHello, world!\r\n";
    let input = Bytes::from(input);
    let result = handle_request(&mut storage, &input).unwrap();

    let expected = Bytes::from("$13\r\nHello, world!\r\n");

    assert_eq!(expected, result);
}

#[test]
fn handle_request_echo_hey() {
    let mut storage = InMemoryStorage::new();
    let input = "*2\r\n$4\r\nECHO\r\n$3\r\nHey\r\n";
    let input = Bytes::from(input);
    let result = handle_request(&mut storage, &input).unwrap();

    let expected = Bytes::from("$3\r\nHey\r\n");

    assert_eq!(expected, result);
}

#[test]
fn handle_request_echo_hey_hey() {
    let mut storage = InMemoryStorage::new();
    let input = "*4\r\n$4\r\nEchO\r\n$3\r\nHey\r\n$4\r\nEchO\r\n$3\r\nHey\r\n";
    let input = Bytes::from(input);
    let result = handle_request(&mut storage, &input).unwrap();

    let expected = Bytes::from("$3\r\nHey\r\n$3\r\nHey\r\n");

    assert_eq!(expected, result);
}

#[test]
fn handle_request_ping_echo_ping_arg() {
    let mut storage = InMemoryStorage::new();
    let input = "*5\r\n$4\r\nPinG\r\n$4\r\nEchO\r\n$15\r\nHey, what's up?\r\n$4\r\nPinG\r\n$13\r\nHello, world!\r\n";
    let input = Bytes::from(input);
    let result = handle_request(&mut storage, &input).unwrap();

    let expected = Bytes::from("+PONG\r\n$15\r\nHey, what's up?\r\n$13\r\nHello, world!\r\n");

    assert_eq!(expected, result);
}

#[test]
fn handle_request_ping_arg_echo_ping() {
    let mut storage = InMemoryStorage::new();
    let input = "*5\r\n$4\r\nPinG\r\n$13\r\nHello, world!\r\n$4\r\nEchO\r\n$15\r\nHey, what's up?\r\n$4\r\nPinG\r\n";
    let input = Bytes::from(input);
    let result = handle_request(&mut storage, &input).unwrap();

    let expected = Bytes::from("$13\r\nHello, world!\r\n$15\r\nHey, what's up?\r\n+PONG\r\n");

    assert_eq!(expected, result);
}

#[test]
fn handle_request_set_01_get() {
    let mut storage = InMemoryStorage::new();

    let input = "*3\r\n$3\r\nSET\r\n$5\r\nKey01\r\n$7\r\nValue01\r\n";
    let input = Bytes::from(input);
    let result = handle_request(&mut storage, &input).unwrap();
    let expected = Bytes::from("+OK\r\n");
    assert_eq!(expected, result);

    let input = "*2\r\n$3\r\nGET\r\n$5\r\nApple\r\n";
    let input = Bytes::from(input);
    let result = handle_request(&mut storage, &input).unwrap();
    let expected = Bytes::from("$-1\r\n");
    assert_eq!(expected, result);

    let input = "*2\r\n$3\r\nGET\r\n$5\r\nKey01\r\n";
    let input = Bytes::from(input);
    let result = handle_request(&mut storage, &input).unwrap();
    let expected = Bytes::from("$7\r\nValue01\r\n");
    assert_eq!(expected, result);
}

#[test]
fn handle_request_set_02_px_get_on_time() {
    let mut storage = InMemoryStorage::new();
    let mut now: u128 = 1_700_000_000_000;

    let input = "*5\r\n$3\r\nSET\r\n$5\r\nkey02\r\n$7\r\nvalue02\r\n$2\r\nPX\r\n$3\r\n100\r\n";
    let input = Bytes::from(input);
    let result = handle_request_at(&mut storage, &input, Some(now)).unwrap();
    let expected = Bytes::from("+OK\r\n");
    assert_eq!(expected, result);

    now += 20;

    let input = "*2\r\n$3\r\nGET\r\n$5\r\nkey02\r\n";
    let input = Bytes::from(input);
    let result = handle_request_at(&mut storage, &input, Some(now)).unwrap();
    let expected = Bytes::from("$7\r\nvalue02\r\n");
    assert_eq!(expected, result);
}

#[test]
fn handle_request_set_03_px_get_expired() {
    let mut storage = InMemoryStorage::new();
    let mut now: u128 = 1_700_000_000_000;

    let input = "*5\r\n$3\r\nSET\r\n$5\r\nkey03\r\n$7\r\nvalue03\r\n$2\r\nPX\r\n$3\r\n100\r\n";
    let input = Bytes::from(input);
    let result = handle_request_at(&mut storage, &input, Some(now)).unwrap();
    let expected = Bytes::from("+OK\r\n");
    assert_eq!(expected, result);

    now += 120;

    let input = "*2\r\n$3\r\nGET\r\n$5\r\nkey03\r\n";
    let input = Bytes::from(input);
    let result = handle_request_at(&mut storage, &input, Some(now)).unwrap();
    let expected = Bytes::from("$-1\r\n");
    assert_eq!(expected, result);
}

#[test]
fn handle_request_set_04_ex_get_on_time() {
    let mut storage = InMemoryStorage::new();
    let mut now: u128 = 1_700_000_000_000;

    let input = "*5\r\n$3\r\nSET\r\n$5\r\nkey04\r\n$7\r\nvalue04\r\n$2\r\nex\r\n$2\r\n10\r\n";
    let input = Bytes::from(input);
    let result = handle_request_at(&mut storage, &input, Some(now)).unwrap();
    let expected = Bytes::from("+OK\r\n");
    assert_eq!(expected, result);

    now += 1000;

    let input = "*2\r\n$3\r\nGET\r\n$5\r\nkey04\r\n";
    let input = Bytes::from(input);
    let result = handle_request_at(&mut storage, &input, Some(now)).unwrap();
    let expected = Bytes::from("$7\r\nvalue04\r\n");
    assert_eq!(expected, result);
}

#[test]
fn handle_request_set_05_ex_get_expired() {
    let mut storage = InMemoryStorage::new();
    let mut now: u128 = 1_700_000_000_000;

    let input = "*5\r\n$3\r\nSET\r\n$5\r\nkey05\r\n$7\r\nvalue05\r\n$2\r\nex\r\n$1\r\n1\r\n";
    let input = Bytes::from(input);
    let result = handle_request_at(&mut storage, &input, Some(now)).unwrap();
    let expected = Bytes::from("+OK\r\n");
    assert_eq!(expected, result);

    now += 1200;

    let input = "*2\r\n$3\r\nGET\r\n$5\r\nkey05\r\n";
    let input = Bytes::from(input);
    let result = handle_request_at(&mut storage, &input, Some(now)).unwrap();
    let expected = Bytes::from("$-1\r\n");
    assert_eq!(expected, result);
}

#[test]
fn handle_request_set_06_set_set_px_get_on_time_then_expired() {
    let mut storage = InMemoryStorage::new();
    let mut now: u128 = 1_700_000_000_000;

    let input = "*3\r\n$3\r\nSET\r\n$5\r\nkey06\r\n$7\r\nvalue06\r\n";
    let input = Bytes::from(input);
    let result = handle_request_at(&mut storage, &input, Some(now)).unwrap();
    let expected = Bytes::from("+OK\r\n");
    assert_eq!(expected, result);
    let input = "*2\r\n$3\r\nGET\r\n$5\r\nkey06\r\n";
    let input = Bytes::from(input);
    let result = handle_request_at(&mut storage, &input, Some(now)).unwrap();
    let expected = Bytes::from("$7\r\nvalue06\r\n");
    assert_eq!(expected, result);

    let input = "*5\r\n$3\r\nSET\r\n$5\r\nkey06\r\n$7\r\nvalue06\r\n$2\r\npX\r\n$3\r\n100\r\n";
    let input = Bytes::from(input);
    let result = handle_request_at(&mut storage, &input, Some(now)).unwrap();
    let expected = Bytes::from("+OK\r\n");
    assert_eq!(expected, result);
    now += 20;
    let input = "*2\r\n$3\r\nGET\r\n$5\r\nkey06\r\n";
    let input = Bytes::from(input);
    let result = handle_request_at(&mut storage, &input, Some(now)).unwrap();
    let expected = Bytes::from("$7\r\nvalue06\r\n");
    assert_eq!(expected, result);
    now += 120;
    let input = "*2\r\n$3\r\nGET\r\n$5\r\nkey06\r\n";
    let input = Bytes::from(input);
    let result = handle_request_at(&mut storage, &input, Some(now)).unwrap();
    let expected = Bytes::from("$-1\r\n");
    assert_eq!(expected, result);
}

#[test]
fn handle_request_set_07_set_px_set_get_on_time_should_not_expire() {
    let mut storage = InMemoryStorage::new();
    let mut now: u128 = 1_700_000_000_000;

    let input = "*5\r\n$3\r\nSET\r\n$5\r\nkey07\r\n$7\r\nvalue07\r\n$2\r\nPx\r\n$3\r\n100\r\n";
    let input = Bytes::from(input);
    let result = handle_request_at(&mut storage, &input, Some(now)).unwrap();
    let expected = Bytes::from("+OK\r\n");
    assert_eq!(expected, result);

    now += 20;

    let input = "*2\r\n$3\r\nGET\r\n$5\r\nkey07\r\n";
    let input = Bytes::from(input);
    let result = handle_request_at(&mut storage, &input, Some(now)).unwrap();
    let expected = Bytes::from("$7\r\nvalue07\r\n");
    assert_eq!(expected, result);

    let input = "*3\r\n$3\r\nSET\r\n$5\r\nkey07\r\n$7\r\nvalue07\r\n";
    let input = Bytes::from(input);
    let result = handle_request_at(&mut storage, &input, Some(now)).unwrap();
    let expected = Bytes::from("+OK\r\n");
    assert_eq!(expected, result);
    let input = "*2\r\n$3\r\nGET\r\n$5\r\nkey07\r\n";
    let input = Bytes::from(input);
    let result = handle_request_at(&mut storage, &input, Some(now)).unwrap();
    let expected = Bytes::from("$7\r\nvalue07\r\n");
    assert_eq!(expected, result);

    now += 120;

    let input = "*2\r\n$3\r\nGET\r\n$5\r\nkey07\r\n";
    let input = Bytes::from(input);
    let result = handle_request_at(&mut storage, &input, Some(now)).unwrap();
    let expected = Bytes::from("$7\r\nvalue07\r\n");
    assert_eq!(expected, result);
}

#[test]
fn handle_request_set_08_set_px_set_px_get_on_time_twice_then_expired() {
    let mut storage = InMemoryStorage::new();
    let mut now: u128 = 1_700_000_000_000;

    let input = "*5\r\n$3\r\nSET\r\n$5\r\nkey08\r\n$7\r\nvalue08\r\n$2\r\nPX\r\n$3\r\n100\r\n";
    let input = Bytes::from(input);
    let result = handle_request_at(&mut storage, &input, Some(now)).unwrap();
    let expected = Bytes::from("+OK\r\n");
    assert_eq!(expected, result);
    now += 20;
    let input = "*2\r\n$3\r\nGET\r\n$5\r\nkey08\r\n";
    let input = Bytes::from(input);
    let result = handle_request_at(&mut storage, &input, Some(now)).unwrap();
    let expected = Bytes::from("$7\r\nvalue08\r\n");
    assert_eq!(expected, result);

    let input = "*5\r\n$3\r\nSET\r\n$5\r\nkey08\r\n$7\r\nvalue08\r\n$2\r\nPX\r\n$3\r\n100\r\n";
    let input = Bytes::from(input);
    let result = handle_request_at(&mut storage, &input, Some(now)).unwrap();
    let expected = Bytes::from("+OK\r\n");
    assert_eq!(expected, result);
    now += 20;
    let input = "*2\r\n$3\r\nGET\r\n$5\r\nkey08\r\n";
    let input = Bytes::from(input);
    let result = handle_request_at(&mut storage, &input, Some(now)).unwrap();
    let expected = Bytes::from("$7\r\nvalue08\r\n");
    assert_eq!(expected, result);

    now += 70;
    let input = "*2\r\n$3\r\nGET\r\n$5\r\nkey08\r\n";
    let input = Bytes::from(input);
    let result = handle_request_at(&mut storage, &input, Some(now)).unwrap();
    let expected = Bytes::from("$7\r\nvalue08\r\n");
    assert_eq!(expected, result);

    now += 20;
    let input = "*2\r\n$3\r\nGET\r\n$5\r\nkey06\r\n";
    let input = Bytes::from(input);
    let result = handle_request_at(&mut storage, &input, Some(now)).unwrap();
    let expected = Bytes::from("$-1\r\n");
    assert_eq!(expected, result);
}
