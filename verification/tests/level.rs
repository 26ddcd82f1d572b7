use lumbermill::LogLevel;

const LEVELS: [LogLevel; 6] = [
    LogLevel::Trace,
    LogLevel::Debug,
    LogLevel::Info,
    LogLevel::Warn,
    LogLevel::Error,
    LogLevel::Fatal,
];

#[test]
fn levels_are_ordered_by_rank() {
    for (i, level) in LEVELS.iter().enumerate() {
        assert_eq!(level.rank() as usize, i);
    }
    for a in LEVELS {
        for b in LEVELS {
            assert_eq!(a < b, a.rank() < b.rank());
            assert_eq!(a == b, a.rank() == b.rank());
        }
    }
}

#[test]
fn level_colors() {
    let colors: Vec<u8> = LEVELS.iter().map(|l| l.color()).collect();
    assert_eq!(colors, [81, 202, 10, 11, 9, 9]);
}

#[test]
fn level_foreground_colors() {
    let colors: Vec<u8> = LEVELS.iter().map(|l| l.fg_color()).collect();
    assert_eq!(colors, [81, 202, 2, 3, 1, 1]);
}

#[test]
fn level_names_and_tags() {
    let names: Vec<&str> = LEVELS.iter().map(|l| l.name()).collect();
    assert_eq!(names, ["trace", "debug", "info", "warn", "error", "fatal"]);
    let tags: Vec<&str> = LEVELS.iter().map(|l| l.tag()).collect();
    assert_eq!(tags, ["TRC", "DBG", "INF", "WRN", "ERR", "FTL"]);
}

#[test]
fn failures_are_error_and_fatal() {
    let failures: Vec<bool> = LEVELS.iter().map(|l| l.is_failure()).collect();
    assert_eq!(failures, [false, false, false, false, true, true]);
}
