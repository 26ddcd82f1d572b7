use lumbermill::{Log, LogFormat, LogLevel, Timestamp};

#[test]
fn compact() {
    let log = Log {
        timestamp: Timestamp::unix_epoch(),
        level: LogLevel::Info,
        kv: &[("key1", "value1"), ("key1.2", "value1.2"), ("message", "logmsg")],
        module: "tests",
        file: "log.rs",
        line: 10,
    };
    let mut w: Vec<u8> = vec![];
    log.write(&mut w, &LogFormat::Compact);
    assert_eq!(String::from_utf8(w).unwrap(), "ts=1970-01-01T00:00:00.000Z level=info message=\"logmsg\" key1=value1 key1.2=value1.2 mod=tests src=log.rs:10\n");
}

#[test]
fn json() {
    let log = Log {
        timestamp: Timestamp::unix_epoch(),
        level: LogLevel::Info,
        kv: &[("key1", "value1"), ("key1.2", "value1.2"), ("message", "logmsg")],
        module: "tests",
        file: "log.rs",
        line: 10,
    };
    let mut w: Vec<u8> = vec![];

    log.write(&mut w, &LogFormat::Json);
    assert_eq!(String::from_utf8(w).unwrap(), "{\"ts\":\"1970-01-01T00:00:00.000Z\",\"level\":\"info\",\"message\":\"logmsg\",\"key1\":\"value1\",\"key1.2\":\"value1.2\",\"mod\":\"tests\",\"src\":\"log.rs:10\"}\n");
}

#[test]
fn pretty_line_carries_the_escape_sequences() {
    let log = Log {
        timestamp: Timestamp::from_unix_millis(43_259_900).unwrap(),
        level: LogLevel::Warn,
        kv: &[("count", "9001"), ("message", "Too many items in queue")],
        module: "tests",
        file: "log.rs",
        line: 7,
    };
    assert_eq!(
        log.pretty(),
        "\x1b[2m12:00:59.900Z\x1b[0m \x1b[38;5;3mWRN\x1b[39m Too many items in queue \x1b[2mcount\x1b[0m\x1b[2m=\x1b[0m9001 \x1b[2mmod=\x1b[0mtests \x1b[2msrc=\x1b[0mlog.rs:7 \n"
    );
}
