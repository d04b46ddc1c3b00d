use rotolog::log_file::archive_path;
use rotolog::log_file::log_dir;
use rotolog::log_file::log_path;
use rotolog::log_file::needs_rotation;
use rotolog::log_file::oldest_stem_index;
use rotolog::log_file::prune_target;
use rotolog::log_file::should_prune;
use rotolog::log_file::stem_path;
use rotolog::log_file::LogFile;
use rotolog::log_file::LOGS_TO_KEEP;
use rotolog::log_file::MAX_LOG_SIZE;
use rotolog::severity::Severity;
use rotolog::Event;

#[test]
fn paths() {
    assert_eq!(log_dir(), "logs/");
    assert_eq!(log_path(), "logs/current.log");
    assert_eq!(archive_path(1700000000123), "logs/1700000000123.log");
    assert_eq!(archive_path(0), "logs/0.log");
    assert_eq!(stem_path("1700000000123"), "logs/1700000000123.log");
}

#[test]
fn rotation_trigger_is_the_size_cap() {
    assert_eq!(MAX_LOG_SIZE, 5 * 1024 * 1024);
    assert!(needs_rotation(Some(MAX_LOG_SIZE)));
    assert!(needs_rotation(Some(MAX_LOG_SIZE + 1)));
    assert!(!needs_rotation(Some(MAX_LOG_SIZE - 1)));
    assert!(!needs_rotation(None));
}

#[test]
fn pruning_trigger_is_the_retention_count() {
    assert_eq!(LOGS_TO_KEEP, 10);
    assert!(should_prune(Some(LOGS_TO_KEEP + 1)));
    assert!(!should_prune(Some(LOGS_TO_KEEP)));
    assert!(!should_prune(None));
}

#[test]
fn oldest_stem_is_numerically_oldest() {
    let stems: Vec<String> = vec![
        "1700000000125".to_string(),
        "1700000000123".to_string(),
        "1700000000124".to_string(),
    ];
    assert_eq!(oldest_stem_index(&stems), Some(1));
    let empty: Vec<String> = Vec::new();
    assert_eq!(oldest_stem_index(&empty), None);
}

#[test]
fn oldest_stem_skips_the_active_file() {
    // a leftover "current" stem sorts after the digit stems, so pruning
    // still picks the oldest timestamp
    let stems: Vec<String> = vec![
        "current".to_string(),
        "1700000000124".to_string(),
        "1700000000123".to_string(),
    ];
    assert_eq!(oldest_stem_index(&stems), Some(2));
}

#[test]
fn oldest_stem_takes_first_among_equals() {
    let stems: Vec<String> = vec!["b".to_string(), "a".to_string(), "a".to_string()];
    assert_eq!(oldest_stem_index(&stems), Some(1));
}

#[test]
fn prune_only_over_the_cap() {
    let stems: Vec<String> = vec!["3".to_string(), "1".to_string(), "2".to_string()];
    assert_eq!(prune_target(Some(11), &stems), Some(1));
    assert_eq!(prune_target(Some(10), &stems), None);
    assert_eq!(prune_target(None, &stems), None);
    let empty: Vec<String> = Vec::new();
    assert_eq!(prune_target(Some(11), &empty), None);
}

#[test]
fn file_sink_renders_only_accepted_events() {
    let sink = LogFile::new(Severity::Info);
    let info = Event::new(Severity::Info, "hello".to_string());
    let debug = Event::new(Severity::Debug, "quiet".to_string());
    assert_eq!(
        sink.render(&info, 42),
        Some("[0000000042] - (INFO): hello\n".to_string())
    );
    assert_eq!(sink.render(&debug, 42), None);
}
