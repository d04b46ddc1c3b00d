use vstd::prelude::*;
use vstd::string::StringExecFns;

use crate::severity::Severity;

verus! {

/// The decimal digit character for `d`, which must be below ten.
pub open spec fn digit_char(d: nat) -> char {
    if d == 0 {
        '0'
    } else if d == 1 {
        '1'
    } else if d == 2 {
        '2'
    } else if d == 3 {
        '3'
    } else if d == 4 {
        '4'
    } else if d == 5 {
        '5'
    } else if d == 6 {
        '6'
    } else if d == 7 {
        '7'
    } else if d == 8 {
        '8'
    } else {
        '9'
    }
}

/// Decimal representation of `n`: most significant digit first, no leading
/// zeros (a single `'0'` for zero itself).
pub open spec fn dec_chars(n: nat) -> Seq<char>
    decreases n,
{
    if n < 10 {
        seq![digit_char(n)]
    } else {
        dec_chars(n / 10).push(digit_char(n % 10))
    }
}

/// `n` zero characters.
pub open spec fn zeros(n: nat) -> Seq<char> {
    Seq::new(n, |i: int| '0')
}

/// Decimal representation of `n`, left-padded with zeros to at least `w`
/// characters; longer numbers are kept whole, never truncated.
pub open spec fn padded_dec(n: nat, w: nat) -> Seq<char> {
    let d = dec_chars(n);
    if d.len() >= w {
        d
    } else {
        zeros((w - d.len()) as nat) + d
    }
}

fn digit_str(d: u8) -> (r: &'static str)
    requires
        d < 10,
    ensures
        r@ == seq![digit_char(d as nat)],
{
    proof {
        reveal_strlit("0");
        reveal_strlit("1");
        reveal_strlit("2");
        reveal_strlit("3");
        reveal_strlit("4");
        reveal_strlit("5");
        reveal_strlit("6");
        reveal_strlit("7");
        reveal_strlit("8");
        reveal_strlit("9");
    }
    let r = match d {
        0 => "0",
        1 => "1",
        2 => "2",
        3 => "3",
        4 => "4",
        5 => "5",
        6 => "6",
        7 => "7",
        8 => "8",
        _ => "9",
    };
    proof {
        assert(r@ =~= seq![digit_char(d as nat)]);
    }
    r
}

/// Renders `n` in decimal, without padding.
pub fn u64_to_dec(n: u64) -> (r: String)
    ensures
        r@ == dec_chars(n as nat),
    decreases n,
{
    if n < 10 {
        String::from_str(digit_str(n as u8))
    } else {
        let mut s = u64_to_dec(n / 10);
        s.append(digit_str((n % 10) as u8));
        proof {
            assert(s@ =~= dec_chars(n as nat));
        }
        s
    }
}

/// Renders `ms` in decimal, zero-padded on the left to at least ten
/// characters, as the elapsed-time field of a file log line.
pub fn format_elapsed(ms: u64) -> (r: String)
    ensures
        r@ == padded_dec(ms as nat, 10),
{
    let digits = u64_to_dec(ms);
    let len = digits.as_str().unicode_len();
    let mut out = String::new();
    let mut i: usize = len;
    while i < 10
        invariant
            len == dec_chars(ms as nat).len(),
            digits@ == dec_chars(ms as nat),
            len <= i,
            i <= 10 || i == len,
            out@ =~= zeros((i - len) as nat),
        decreases 10 - i,
    {
        out.append("0");
        i = i + 1;
        proof {
            reveal_strlit("0");
            assert(out@ =~= zeros((i - len) as nat));
        }
    }
    out.append(digits.as_str());
    proof {
        assert(out@ =~= padded_dec(ms as nat, 10));
    }
    out
}

/// The fixed text of each severity, as it appears in every rendered line.
pub open spec fn spec_label(s: Severity) -> Seq<char> {
    match s {
        Severity::Error => "ERROR"@,
        Severity::Warn => "WARN"@,
        Severity::Info => "INFO"@,
        Severity::Debug => "DEBUG"@,
        Severity::Trace => "TRACE"@,
    }
}

/// The severity's text token.
pub fn severity_label(s: Severity) -> (r: &'static str)
    ensures
        r@ == spec_label(s),
{
    match s {
        Severity::Error => "ERROR",
        Severity::Warn => "WARN",
        Severity::Info => "INFO",
        Severity::Debug => "DEBUG",
        Severity::Trace => "TRACE",
    }
}

/// A plain file log line: `[<elapsed, ten digits>] - (<SEVERITY>): <msg>`
/// followed by a newline.
pub open spec fn plain_line(elapsed_ms: nat, sev: Severity, msg: Seq<char>) -> Seq<char> {
    "["@ + padded_dec(elapsed_ms, 10) + "] - ("@ + spec_label(sev) + "): "@ + msg + "\n"@
}

/// Renders the plain (uncolored) log line written to the active file.
pub fn format_plain(elapsed_ms: u64, sev: Severity, msg: &str) -> (r: String)
    ensures
        r@ == plain_line(elapsed_ms as nat, sev, msg@),
{
    let mut out = String::from_str("[");
    out.append(format_elapsed(elapsed_ms).as_str());
    out.append("] - (");
    out.append(severity_label(sev));
    out.append("): ");
    out.append(msg);
    out.append("\n");
    proof {
        assert(out@ =~= plain_line(elapsed_ms as nat, sev, msg@));
    }
    out
}

/// A basic stream line: `<SEVERITY> - <msg>` followed by a newline.
pub open spec fn basic_line(sev: Severity, msg: Seq<char>) -> Seq<char> {
    spec_label(sev) + " - "@ + msg + "\n"@
}

/// Renders the basic line used by the generic stream sink.
pub fn format_basic(sev: Severity, msg: &str) -> (r: String)
    ensures
        r@ == basic_line(sev, msg@),
{
    let mut out = String::from_str(severity_label(sev));
    out.append(" - ");
    out.append(msg);
    out.append("\n");
    proof {
        assert(out@ =~= basic_line(sev, msg@));
    }
    out
}

} // verus!
