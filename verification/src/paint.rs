use vstd::prelude::*;
use vstd::string::StringExecFns;

use crate::format::severity_label;
use crate::format::spec_label;
use crate::severity::Severity;

verus! {

/// Whether `s` is free of the terminal escape character, so that painting it
/// cannot collide with an escape sequence already inside it.
pub open spec fn no_escape(s: Seq<char>) -> bool {
    forall|i: int| 0 <= i < s.len() ==> s[i] != '\u{1b}'
}

/// The sequence that ends every colored span.
pub open spec fn reset_seq() -> Seq<char> {
    "\u{1b}[0m"@
}

/// What a painting call guarantees of its output: for text free of escape
/// characters, the output is the text unchanged (colors are off for this
/// process), the text wrapped in `prefix` and the reset sequence, or — when
/// the process flips colors off while the text is rendered — the text with
/// only the trailing reset.
pub open spec fn painted(out: Seq<char>, inp: Seq<char>, prefix: Seq<char>) -> bool {
    no_escape(inp) ==> (out == inp || out == prefix + inp + reset_seq() || out == inp
        + reset_seq())
}

/// Relies on colored::Colorize::red and the Display of ColoredString: with
/// colors disabled the text is rendered unchanged; with colors enabled, text
/// holding no escape character is wrapped in the red prefix and the reset.
#[verifier::external_body]
fn paint_red(s: &str) -> (r: String)
    ensures
        painted(r@, s@, "\u{1b}[31m"@),
{
    colored::Colorize::red(s).to_string()
}

/// Relies on colored::Colorize::yellow and the Display of ColoredString: the
/// text is rendered unchanged or wrapped in the yellow prefix and the reset.
#[verifier::external_body]
fn paint_yellow(s: &str) -> (r: String)
    ensures
        painted(r@, s@, "\u{1b}[33m"@),
{
    colored::Colorize::yellow(s).to_string()
}

/// Relies on colored::Colorize::green and the Display of ColoredString: the
/// text is rendered unchanged or wrapped in the green prefix and the reset.
#[verifier::external_body]
fn paint_green(s: &str) -> (r: String)
    ensures
        painted(r@, s@, "\u{1b}[32m"@),
{
    colored::Colorize::green(s).to_string()
}

/// Relies on colored::Colorize::white and the Display of ColoredString: the
/// text is rendered unchanged or wrapped in the white prefix and the reset.
#[verifier::external_body]
fn paint_white(s: &str) -> (r: String)
    ensures
        painted(r@, s@, "\u{1b}[37m"@),
{
    colored::Colorize::white(s).to_string()
}

/// Relies on colored::Colorize::cyan and the Display of ColoredString: the
/// text is rendered unchanged or wrapped in the cyan prefix and the reset.
#[verifier::external_body]
fn paint_cyan(s: &str) -> (r: String)
    ensures
        painted(r@, s@, "\u{1b}[36m"@),
{
    colored::Colorize::cyan(s).to_string()
}

/// The prefix that opens the cyan span around the elapsed-time field.
pub open spec fn cyan_prefix() -> Seq<char> {
    "\u{1b}[36m"@
}

/// The fixed severity-to-color table of the terminal sink: error red, warn
/// yellow, info green, everything less urgent white.
pub open spec fn color_prefix(sev: Severity) -> Seq<char> {
    match sev {
        Severity::Error => "\u{1b}[31m"@,
        Severity::Warn => "\u{1b}[33m"@,
        Severity::Info => "\u{1b}[32m"@,
        Severity::Debug => "\u{1b}[37m"@,
        Severity::Trace => "\u{1b}[37m"@,
    }
}

/// Paints the severity's own label in the color the fixed table assigns to
/// that severity.
pub fn paint_severity(sev: Severity) -> (r: String)
    ensures
        painted(r@, spec_label(sev), color_prefix(sev)),
{
    let label = severity_label(sev);
    match sev {
        Severity::Error => paint_red(label),
        Severity::Warn => paint_yellow(label),
        Severity::Info => paint_green(label),
        Severity::Debug => paint_white(label),
        Severity::Trace => paint_white(label),
    }
}

/// A colorized terminal line built from the painted elapsed-time text `e` and
/// the painted severity token `v`:
/// `[<e>] - (<v>): <msg>` followed by a newline.
pub open spec fn colored_line(
    elapsed_text: Seq<char>,
    sev: Severity,
    msg: Seq<char>,
    out: Seq<char>,
) -> bool {
    exists|e: Seq<char>, v: Seq<char>|
        painted(e, elapsed_text, cyan_prefix()) && painted(v, spec_label(sev), color_prefix(sev))
            && out == "["@ + e + "] - ("@ + v + "): "@ + msg + "\n"@
}

/// Renders the colorized log line written to the terminal: the elapsed-time
/// field painted cyan and the severity token painted by the fixed table, laid
/// out exactly as the plain line is.
pub fn format_colored(elapsed_text: &str, sev: Severity, msg: &str) -> (r: String)
    ensures
        colored_line(elapsed_text@, sev, msg@, r@),
{
    let e = paint_cyan(elapsed_text);
    let v = paint_severity(sev);
    let mut out = String::from_str("[");
    out.append(e.as_str());
    out.append("] - (");
    out.append(v.as_str());
    out.append("): ");
    out.append(msg);
    out.append("\n");
    proof {
        assert(out@ =~= "["@ + e@ + "] - ("@ + v@ + "): "@ + msg@ + "\n"@);
        assert(painted(e@, elapsed_text@, cyan_prefix()) && painted(
            v@,
            spec_label(sev),
            color_prefix(sev),
        ) && out@ == "["@ + e@ + "] - ("@ + v@ + "): "@ + msg@ + "\n"@);
    }
    out
}

} // verus!
