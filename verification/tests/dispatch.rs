use rotolog::init;
use rotolog::log_file::LogFile;
use rotolog::log_stdout::LogStdOut;
use rotolog::severity::Severity;
use rotolog::DispatchState;
use rotolog::Event;
use rotolog::InitError;
use rotolog::Logger;
use rotolog::MultiLogger;
use rotolog::Sink;

fn info_and_warn_sinks() -> Vec<Sink> {
    vec![
        Sink::File(LogFile::new(Severity::Info)),
        Sink::Terminal(LogStdOut::new(Severity::Warn)),
    ]
}

#[test]
fn multiplexer_accepts_iff_any_sink_accepts() {
    let mux = MultiLogger::new(info_and_warn_sinks());
    assert!(!mux.enabled(Severity::Debug));
    assert!(mux.enabled(Severity::Info));
    assert!(mux.enabled(Severity::Warn));
    assert!(mux.enabled(Severity::Error));
    let none = MultiLogger::new(Vec::new());
    assert!(!none.enabled(Severity::Error));
}

#[test]
fn dispatch_reaches_exactly_the_accepting_sinks() {
    colored::control::set_override(false);
    let mux = MultiLogger::new(info_and_warn_sinks());

    let debug = Event::new(Severity::Debug, "d".to_string());
    let nothing: Vec<Option<String>> = vec![None, None];
    assert_eq!(mux.render_all(&debug, 1, "1ms"), nothing);

    let info = Event::new(Severity::Info, "i".to_string());
    assert_eq!(
        mux.render_all(&info, 1, "1ms"),
        vec![Some("[0000000001] - (INFO): i\n".to_string()), None]
    );

    let error = Event::new(Severity::Error, "e".to_string());
    assert_eq!(
        mux.render_all(&error, 1, "1ms"),
        vec![
            Some("[0000000001] - (ERROR): e\n".to_string()),
            Some("[1ms] - (ERROR): e\n".to_string()),
        ]
    );
    colored::control::unset_override();
}

#[test]
fn stream_sink_cuts_off_below_info() {
    let logger = Logger::new();
    assert!(logger.enabled(Severity::Info));
    assert!(!logger.enabled(Severity::Debug));
    let info = Event::new(Severity::Info, "ready".to_string());
    assert_eq!(logger.render(&info), Some("INFO - ready\n".to_string()));
    let trace = Event::new(Severity::Trace, "noise".to_string());
    assert_eq!(logger.render(&trace), None);
}

#[test]
fn most_permissive_severity_wins() {
    let mux = MultiLogger::new(info_and_warn_sinks());
    assert_eq!(mux.max_severity(), Severity::Info);
    let none = MultiLogger::new(Vec::new());
    assert_eq!(none.max_severity(), Severity::Error);
    let noisy = MultiLogger::new(vec![
        Sink::Terminal(LogStdOut::new(Severity::Trace)),
        Sink::File(LogFile::new(Severity::Warn)),
    ]);
    assert_eq!(noisy.max_severity(), Severity::Trace);
}

#[test]
fn second_install_is_rejected_and_harmless() {
    let mut state = DispatchState::new();
    assert!(init(&mut state, info_and_warn_sinks()).is_ok());
    assert!(state.installed.is_some());
    let again = init(&mut state, Vec::new());
    assert_eq!(again, Err(InitError::AlreadyInitialized));
    let mux = state.installed.as_ref().expect("first installation intact");
    assert_eq!(mux.sinks.len(), 2);
}
