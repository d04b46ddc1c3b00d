use rotolog::log_stdout::LogStdOut;
use rotolog::severity::accepts;
use rotolog::severity::Severity;

#[test]
fn log_enabled_info() {
    let logger = LogStdOut::new(Severity::Info);
    assert!(logger.enabled(Severity::Error));
    assert!(logger.enabled(Severity::Warn));
    assert!(logger.enabled(Severity::Info));
    assert!(!logger.enabled(Severity::Debug));
    assert!(!logger.enabled(Severity::Trace));
}

#[test]
fn log_enabled_warn() {
    let logger = LogStdOut::new(Severity::Warn);
    assert!(logger.enabled(Severity::Error));
    assert!(logger.enabled(Severity::Warn));
    assert!(!logger.enabled(Severity::Info));
    assert!(!logger.enabled(Severity::Debug));
    assert!(!logger.enabled(Severity::Trace));
}

#[test]
fn accepts_follows_urgency_order() {
    let order = [
        Severity::Error,
        Severity::Warn,
        Severity::Info,
        Severity::Debug,
        Severity::Trace,
    ];
    for (ei, event) in order.iter().enumerate() {
        for (mi, minimum) in order.iter().enumerate() {
            assert_eq!(accepts(*event, *minimum), ei <= mi);
        }
    }
}

#[test]
fn error_passes_every_minimum() {
    assert!(accepts(Severity::Error, Severity::Error));
    assert!(accepts(Severity::Error, Severity::Warn));
    assert!(accepts(Severity::Error, Severity::Trace));
    assert!(!accepts(Severity::Trace, Severity::Error));
}
