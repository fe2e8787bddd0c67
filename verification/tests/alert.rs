use hawkeye::alert::{get_alert_message, get_message, webhook_body};
use hawkeye::event::{Event, EventType, ToStr};
use hawkeye::text::{parse_u64, u64_to_dec, ParseNumError};

#[test]
fn decimal_rendering_is_exact() {
    assert_eq!(u64_to_dec(0), "0");
    assert_eq!(u64_to_dec(7), "7");
    assert_eq!(u64_to_dec(10), "10");
    assert_eq!(u64_to_dec(150_000_000), "150000000");
    assert_eq!(u64_to_dec(u64::MAX), "18446744073709551615");
}

#[test]
fn parse_accepts_unsigned_decimals() {
    assert_eq!(parse_u64("0"), Ok(0));
    assert_eq!(parse_u64("42"), Ok(42));
    assert_eq!(parse_u64("+42"), Ok(42));
    assert_eq!(parse_u64("007"), Ok(7));
    assert_eq!(parse_u64("18446744073709551615"), Ok(u64::MAX));
}

#[test]
fn parse_rejects_bad_input() {
    assert_eq!(parse_u64(""), Err(ParseNumError::Empty));
    assert_eq!(parse_u64("+"), Err(ParseNumError::InvalidDigit));
    assert_eq!(parse_u64("12x"), Err(ParseNumError::InvalidDigit));
    assert_eq!(parse_u64("-1"), Err(ParseNumError::InvalidDigit));
    assert_eq!(parse_u64(" 1"), Err(ParseNumError::InvalidDigit));
    assert_eq!(parse_u64("18446744073709551616"), Err(ParseNumError::Overflow));
}

#[test]
fn alert_message_carries_all_fields() {
    let ev = Event { pid: 4242, elapsed_ns: 150_000_000, event_type: EventType::fsync };
    let msg = get_alert_message(&String::from("fsync"), &String::from("web-1"), &ev);
    assert_eq!(
        msg,
        "[ALERT] fsync takes too loooooooong! hostname: web-1, pid: 4242, elapsed: 150000000ns"
    );
}

#[test]
fn localized_message_carries_all_fields() {
    let ev = Event { pid: 99, elapsed_ns: 2_000_000_001, event_type: EventType::fdatasync };
    let msg = get_message(&String::from("fdatasync"), &String::from("db-7"), &ev);
    assert_eq!(
        msg,
        "[警告] db-7 上的 fdatasync 实在是太慢了！居然消耗了 2000000001 纳秒！快去看看服务 99 吧！"
    );
}

#[test]
fn call_names_are_stable() {
    assert_eq!(EventType::clock_gettime.to_str(), "clock_gettime");
    assert_eq!(EventType::fsync.to_str(), "fsync");
    assert_eq!(EventType::fdatasync.to_str(), "fdatasync");
    assert_eq!(EventType::down_killable.to_str(), "down_killable");
    assert_eq!(EventType::down_read_killable.to_str(), "down_read_killable");
    assert_eq!(EventType::down_write_killable.to_str(), "down_write_killable");
    assert_eq!(EventType::posix_fadvise.to_str(), "posix_fadvise");
}

#[test]
fn webhook_body_is_wellformed_json() {
    let body = webhook_body("plain message");
    let v: serde_json::Value = serde_json::from_str(&body).expect("body must parse");
    assert_eq!(v["msgtype"], "text");
    assert_eq!(v["text"]["content"], "plain message");
}

#[test]
fn webhook_body_escapes_the_message() {
    let tricky = "say \"hi\" \\ and\nstop";
    let body = webhook_body(tricky);
    let v: serde_json::Value = serde_json::from_str(&body).expect("body must parse");
    assert_eq!(v["text"]["content"], tricky);
}
