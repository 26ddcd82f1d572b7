use lumbermill::{
    Dispatch, FileLogger, FileWrite, InitError, Log, LogFormat, LogLevel, Logger, RollInterval,
    Timestamp,
};

fn record<'a>(level: LogLevel, kv: &'a [(&'a str, &'a str)]) -> Log<'a> {
    Log {
        timestamp: Timestamp::now_utc(),
        level,
        module: "lumbermill::logger::tests",
        file: "src/logger.rs",
        line: 112,
        kv,
    }
}

fn at<'a>(millis: i64, level: LogLevel, kv: &'a [(&'a str, &'a str)]) -> Log<'a> {
    Log {
        timestamp: Timestamp::from_unix_millis(millis).unwrap(),
        level,
        module: "app",
        file: "main.rs",
        line: 3,
        kv,
    }
}

#[test]
fn logger_stdout() {
    let mut logger = Logger::default();

    let out = logger.log(record(
        LogLevel::Trace,
        &[
            ("service", "toph"),
            ("node", "fra"),
            ("message", "Accepted TCP connection from 172.45.22.190:62498"),
        ],
    ));
    assert_eq!(out, Dispatch { stdout: None, file: None });

    let out = logger.log(record(
        LogLevel::Debug,
        &[("addr", "https://postgres.org"), ("message", "Established connection to DB")],
    ));
    assert_eq!(out, Dispatch { stdout: None, file: None });

    let out = logger.log(record(
        LogLevel::Info,
        &[("addr", "0.0.0.0"), ("message", "Listening on :7096")],
    ));
    let line = out.stdout.unwrap();
    assert!(line.contains("\x1b[38;5;2mINF\x1b[39m Listening on :7096 \x1b[2maddr\x1b[0m\x1b[2m=\x1b[0m0.0.0.0 "));
    assert_eq!(out.file, None);

    let out = logger.log(record(
        LogLevel::Warn,
        &[("count", "9001"), ("message", "Too many items in queue")],
    ));
    let line = out.stdout.unwrap();
    assert!(line.contains("\x1b[38;5;3mWRN\x1b[39m Too many items in queue \x1b[2mcount\x1b[0m\x1b[2m=\x1b[0m9001 "));

    let out = logger.log(record(
        LogLevel::Error,
        &[("reason", "No connectivity"), ("message", "Database connection dropped")],
    ));
    let line = out.stdout.unwrap();
    assert!(line.contains("\x1b[38;5;1mERR\x1b[39m \x1b[31mDatabase connection dropped\x1b[39m \x1b[2mreason\x1b[0m\x1b[2m=\x1b[0mNo connectivity "));

    let out = logger.log(record(
        LogLevel::Fatal,
        &[("usage", "128MB"), ("message", "Out of memory")],
    ));
    let line = out.stdout.unwrap();
    assert!(line.contains("\x1b[38;5;1mFTL\x1b[39m \x1b[31mOut of memory\x1b[39m \x1b[2musage\x1b[0m\x1b[2m=\x1b[0m128MB "));
    assert!(line.ends_with("\x1b[2mmod=\x1b[0mlumbermill::logger::tests \x1b[2msrc=\x1b[0msrc/logger.rs:112 \n"));
}

#[test]
fn stdout() {
    let mut logger = Logger::default();
    let levels = [
        (LogLevel::Trace, "Accepted TCP connection from 172.45.22.190:62498", None),
        (LogLevel::Debug, "Established connection to DB", None),
        (LogLevel::Info, "Listening on :7096", Some("\x1b[38;5;2mINF\x1b[39m Listening on :7096 ")),
        (
            LogLevel::Warn,
            "Too many items in queue",
            Some("\x1b[38;5;3mWRN\x1b[39m Too many items in queue "),
        ),
        (
            LogLevel::Error,
            "Database connection dropped",
            Some("\x1b[38;5;1mERR\x1b[39m \x1b[31mDatabase connection dropped\x1b[39m "),
        ),
    ];
    for (level, message, shown) in levels {
        let out = logger.log(record(
            level,
            &[
                ("service", "toph"),
                ("node", "fra"),
                ("addr", "0.0.0.0"),
                ("port", "7096"),
                ("message", message),
            ],
        ));
        assert_eq!(out.file, None);
        match shown {
            None => assert_eq!(out.stdout, None),
            Some(shown) => {
                let line = out.stdout.unwrap();
                let fields = "\x1b[2mservice\x1b[0m\x1b[2m=\x1b[0mtoph \x1b[2mnode\x1b[0m\x1b[2m=\x1b[0mfra \x1b[2maddr\x1b[0m\x1b[2m=\x1b[0m0.0.0.0 \x1b[2mport\x1b[0m\x1b[2m=\x1b[0m7096 ";
                assert!(line.contains(&format!("{}{}", shown, fields)));
            }
        }
    }
}

#[test]
fn new_and_builder_start_from_the_default_configuration() {
    for logger in [Logger::new(), Logger::builder(), Logger::default()] {
        assert_eq!(logger.min_level(), LogLevel::Info);
        assert_eq!(logger.line_format(), LogFormat::Pretty);
        assert!(logger.has_stdout());
        assert!(logger.file_logger().is_none());
    }
}

#[test]
fn setters_change_one_thing_each() {
    let logger = Logger::new().level(LogLevel::Warn);
    assert_eq!(logger.min_level(), LogLevel::Warn);
    assert_eq!(logger.line_format(), LogFormat::Pretty);

    assert_eq!(Logger::new().format(LogFormat::Json).line_format(), LogFormat::Json);
    assert_eq!(Logger::new().json().line_format(), LogFormat::Json);
    assert_eq!(Logger::new().compact().line_format(), LogFormat::Compact);
    assert_eq!(Logger::new().compact().pretty().line_format(), LogFormat::Pretty);
    assert_eq!(
        Logger::new().format(LogFormat::PrettyStructured).line_format(),
        LogFormat::PrettyStructured
    );

    assert!(!Logger::new().stdout(false).has_stdout());
    assert!(Logger::new().stdout(false).stdout(true).has_stdout());

    let logger = Logger::new().file("./logs", RollInterval::Hourly);
    let file = logger.file_logger().unwrap();
    assert_eq!(file.directory(), "./logs");
    assert_eq!(file.interval(), RollInterval::Hourly);
    assert!(logger.has_stdout());
    assert_eq!(logger.min_level(), LogLevel::Info);
}

#[test]
fn the_last_file_setter_wins() {
    let logger = Logger::default()
        .file("./logs", RollInterval::Never)
        .file("./logs", RollInterval::Hourly)
        .file("./logs", RollInterval::Daily)
        .compact();
    assert_eq!(logger.file_logger().unwrap().interval(), RollInterval::Daily);
    assert_eq!(logger.line_format(), LogFormat::Compact);
}

#[test]
fn records_below_the_minimum_level_reach_no_sink() {
    let start = Timestamp::from_unix_millis(0).unwrap();
    let levels = [
        LogLevel::Trace,
        LogLevel::Debug,
        LogLevel::Info,
        LogLevel::Warn,
        LogLevel::Error,
        LogLevel::Fatal,
    ];
    for (m, minimum) in levels.iter().enumerate() {
        for (l, level) in levels.iter().enumerate() {
            let mut logger = Logger::new()
                .level(*minimum)
                .compact()
                .with_file(FileLogger::starting_at("logs", RollInterval::Secondly, start));
            // Late enough to roll the file over, if the record gets that far.
            let out = logger.log(at(5_000, *level, &[("message", "m")]));
            if l < m {
                assert_eq!(out, Dispatch { stdout: None, file: None });
                assert_eq!(logger.file_logger().unwrap().roll_date(), 1);
                assert_eq!(logger.file_logger().unwrap().file_name(), "1970-01-01T00-00-00.log");
            } else {
                assert!(out.stdout.is_some());
                assert!(out.file.is_some());
                assert_eq!(logger.file_logger().unwrap().roll_date(), 6);
            }
        }
    }
}

#[test]
fn both_sinks_get_the_same_line() {
    let start = Timestamp::from_unix_millis(0).unwrap();
    let mut logger = Logger::new()
        .level(LogLevel::Trace)
        .compact()
        .with_file(FileLogger::starting_at("logs", RollInterval::Daily, start));
    let out = logger.log(at(1_000, LogLevel::Debug, &[("k", "v"), ("message", "hello")]));
    let line = "ts=1970-01-01T00:00:01.000Z level=debug message=\"hello\" k=v mod=app src=main.rs:3\n";
    assert_eq!(
        out,
        Dispatch {
            stdout: Some(line.to_string()),
            file: Some(FileWrite { rotate: None, line: line.to_string() }),
        }
    );
}

#[test]
fn only_the_active_sinks_are_served() {
    let start = Timestamp::from_unix_millis(0).unwrap();
    let mut quiet = Logger::new().stdout(false);
    let out = quiet.log(at(0, LogLevel::Error, &[("message", "m")]));
    assert_eq!(out, Dispatch { stdout: None, file: None });

    let mut file_only = Logger::new()
        .stdout(false)
        .json()
        .with_file(FileLogger::starting_at("logs", RollInterval::Never, start));
    let out = file_only.log(at(0, LogLevel::Error, &[("message", "m")]));
    assert_eq!(out.stdout, None);
    assert_eq!(
        out.file,
        Some(FileWrite {
            rotate: None,
            line: "{\"ts\":\"1970-01-01T00:00:00.000Z\",\"level\":\"error\",\"message\":\"m\",\"mod\":\"app\",\"src\":\"main.rs:3\"}\n".to_string(),
        })
    );
}

#[test]
fn the_logger_rolls_its_file_over() {
    let start = Timestamp::from_unix_millis(43_259_900).unwrap();
    let mut logger = Logger::new()
        .stdout(false)
        .compact()
        .with_file(FileLogger::starting_at("logs", RollInterval::Minutely, start));
    assert_eq!(logger.file_logger().unwrap().file_name(), "1970-01-01T12-00-00.log");

    let out = logger.log(at(43_259_900, LogLevel::Info, &[("message", "before")]));
    assert_eq!(out.file.unwrap().rotate, None);

    let out = logger.log(at(43_260_100, LogLevel::Info, &[("message", "after")]));
    assert_eq!(out.file.unwrap().rotate, Some("1970-01-01T12-01-00.log".to_string()));
    assert_eq!(logger.file_logger().unwrap().file_name(), "1970-01-01T12-01-00.log");
}

#[test]
fn init_publishes_once() {
    let mut slot: Option<Logger> = None;
    assert_eq!(Logger::new().level(LogLevel::Warn).init(&mut slot, false), Ok(()));
    assert_eq!(slot.as_ref().unwrap().min_level(), LogLevel::Warn);

    assert_eq!(
        Logger::new().level(LogLevel::Trace).init(&mut slot, true),
        Err(InitError::MultipleInitializations)
    );
    assert_eq!(slot.as_ref().unwrap().min_level(), LogLevel::Warn);
}

#[test]
fn init_needs_the_directory_of_the_file_sink() {
    let mut slot: Option<Logger> = None;
    let logger = Logger::new().file("no/such/place", RollInterval::Daily);
    assert_eq!(
        logger.init(&mut slot, false),
        Err(InitError::DirectoryDoesNotExist("no/such/place".to_string()))
    );
    assert!(slot.is_none());

    let logger = Logger::new().file("logs", RollInterval::Daily);
    assert_eq!(logger.init(&mut slot, true), Ok(()));
    assert_eq!(slot.as_ref().unwrap().file_logger().unwrap().directory(), "logs");
}

#[test]
fn a_missing_directory_is_reported_before_a_taken_slot() {
    let mut slot: Option<Logger> = Some(Logger::new());
    let logger = Logger::new().file("gone", RollInterval::Never);
    assert_eq!(
        logger.init(&mut slot, false),
        Err(InitError::DirectoryDoesNotExist("gone".to_string()))
    );
    assert!(slot.unwrap().file_logger().is_none());
}

#[test]
fn init_errors_in_words() {
    assert_eq!(
        InitError::DirectoryDoesNotExist("logs".to_string()).message(),
        "The directory `logs` does not exist"
    );
    assert_eq!(
        InitError::MultipleInitializations.message(),
        "Loggers can only be initialized once"
    );
}
