use rotolog::format::format_basic;
use rotolog::format::format_elapsed;
use rotolog::format::format_plain;
use rotolog::format::severity_label;
use rotolog::format::u64_to_dec;
use rotolog::paint::format_colored;
use rotolog::severity::Severity;

#[test]
fn decimal_rendering() {
    assert_eq!(u64_to_dec(0), "0");
    assert_eq!(u64_to_dec(7), "7");
    assert_eq!(u64_to_dec(1700000000123), "1700000000123");
    assert_eq!(u64_to_dec(u64::MAX), "18446744073709551615");
}

#[test]
fn elapsed_is_zero_padded_to_ten() {
    assert_eq!(format_elapsed(0), "0000000000");
    assert_eq!(format_elapsed(1234), "0000001234");
    assert_eq!(format_elapsed(9999999999), "9999999999");
    assert_eq!(format_elapsed(12345678901), "12345678901");
}

#[test]
fn severity_labels() {
    assert_eq!(severity_label(Severity::Error), "ERROR");
    assert_eq!(severity_label(Severity::Warn), "WARN");
    assert_eq!(severity_label(Severity::Info), "INFO");
    assert_eq!(severity_label(Severity::Debug), "DEBUG");
    assert_eq!(severity_label(Severity::Trace), "TRACE");
}

#[test]
fn plain_line_layout() {
    assert_eq!(
        format_plain(1234, Severity::Info, "hello"),
        "[0000001234] - (INFO): hello\n"
    );
    assert_eq!(
        format_plain(0, Severity::Error, ""),
        "[0000000000] - (ERROR): \n"
    );
    assert_eq!(
        format_plain(12345678901, Severity::Warn, "big"),
        "[12345678901] - (WARN): big\n"
    );
}

#[test]
fn basic_line_layout() {
    assert_eq!(format_basic(Severity::Info, "ready"), "INFO - ready\n");
    assert_eq!(format_basic(Severity::Error, "boom"), "ERROR - boom\n");
}

#[test]
fn colored_line_with_colors_off() {
    colored::control::set_override(false);
    assert_eq!(
        format_colored("12s", Severity::Error, "boom"),
        "[12s] - (ERROR): boom\n"
    );
    colored::control::unset_override();
}

#[test]
fn colored_line_with_colors_on() {
    colored::control::set_override(true);
    assert_eq!(
        format_colored("12s", Severity::Error, "boom"),
        "[\u{1b}[36m12s\u{1b}[0m] - (\u{1b}[31mERROR\u{1b}[0m): boom\n"
    );
    assert_eq!(
        format_colored("3ms", Severity::Warn, "w"),
        "[\u{1b}[36m3ms\u{1b}[0m] - (\u{1b}[33mWARN\u{1b}[0m): w\n"
    );
    assert_eq!(
        format_colored("3ms", Severity::Info, "i"),
        "[\u{1b}[36m3ms\u{1b}[0m] - (\u{1b}[32mINFO\u{1b}[0m): i\n"
    );
    assert_eq!(
        format_colored("3ms", Severity::Trace, "t"),
        "[\u{1b}[36m3ms\u{1b}[0m] - (\u{1b}[37mTRACE\u{1b}[0m): t\n"
    );
    colored::control::unset_override();
}
