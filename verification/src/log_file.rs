use vstd::prelude::*;
use vstd::string::StringExecFns;

use crate::format::dec_chars;
use crate::format::format_plain;
use crate::format::plain_line;
use crate::format::u64_to_dec;
use crate::order::lemma_lex_le_antisym;
use crate::order::lemma_lex_le_total;
use crate::order::lemma_lex_le_trans;
use crate::order::lex_le;
use crate::order::lex_le_str;
use crate::severity::accepts;
use crate::severity::spec_accepts;
use crate::severity::Severity;
use crate::Event;

verus! {

/// Size of the active file, in bytes, at which a write triggers rotation.
pub const MAX_LOG_SIZE: u64 = 5 * 1024 * 1024;

/// How many archive files a rotation leaves behind at most.
pub const LOGS_TO_KEEP: usize = 10;

/// The rotating file sink: formats accepted events as plain lines for the
/// active file and decides when the file rotates and which archive is pruned.
/// The host performs the appends, renames and deletes these decisions call
/// for.
pub struct LogFile {
    pub level: Severity,
}

/// The directory all log files live in.
pub open spec fn spec_log_dir() -> Seq<char> {
    "logs/"@
}

/// The path of the active log file.
pub open spec fn spec_log_path() -> Seq<char> {
    "logs/current.log"@
}

/// The path of the archive a rotation stamped `now_ms` creates.
pub open spec fn spec_archive_path(now_ms: nat) -> Seq<char> {
    spec_log_dir() + dec_chars(now_ms) + ".log"@
}

/// The path of the archive a stem names.
pub open spec fn spec_stem_path(stem: Seq<char>) -> Seq<char> {
    spec_log_dir() + stem + ".log"@
}

/// The directory all log files live in.
pub fn log_dir() -> (r: &'static str)
    ensures
        r@ == spec_log_dir(),
{
    "logs/"
}

/// Path of the active log file, inside the log directory.
pub fn log_path() -> (r: String)
    ensures
        r@ == spec_log_path(),
{
    String::from_str("logs/current.log")
}

/// Path of the archive created by a rotation at `now_ms` milliseconds: the
/// timestamp in decimal, suffixed `.log`, inside the log directory.
pub fn archive_path(now_ms: u64) -> (r: String)
    ensures
        r@ == spec_archive_path(now_ms as nat),
{
    let mut p = String::from_str(log_dir());
    p.append(u64_to_dec(now_ms).as_str());
    p.append(".log");
    proof {
        assert(p@ =~= spec_archive_path(now_ms as nat));
    }
    p
}

/// Path of the archive whose stem (file name without extension) is `stem`.
pub fn stem_path(stem: &str) -> (r: String)
    ensures
        r@ == spec_stem_path(stem@),
{
    let mut p = String::from_str(log_dir());
    p.append(stem);
    p.append(".log");
    proof {
        assert(p@ =~= spec_stem_path(stem@));
    }
    p
}

/// Whether a write must rotate: true exactly when the size of the active
/// file was read and reached the cap. An unreadable size skips rotation.
pub fn needs_rotation(size: Option<u64>) -> (r: bool)
    ensures
        r == (size matches Some(n) && n >= MAX_LOG_SIZE),
{
    match size {
        Option::Some(n) => n >= MAX_LOG_SIZE,
        Option::None => false,
    }
}

/// Whether a rotation must prune an archive: true exactly when the directory
/// was read and holds more entries than LOGS_TO_KEEP. An unreadable
/// directory skips pruning.
pub fn should_prune(count: Option<usize>) -> (r: bool)
    ensures
        r == (count matches Some(c) && c > LOGS_TO_KEEP),
{
    match count {
        Option::Some(c) => c > LOGS_TO_KEEP,
        Option::None => false,
    }
}

/// Index of the lexicographically smallest stem — for timestamp-named
/// archives of equal digit width, the oldest — taking the first among
/// equals. None only for an empty listing.
pub fn oldest_stem_index(stems: &Vec<String>) -> (r: Option<usize>)
    ensures
        (r is None) == (stems@.len() == 0),
        r matches Some(i) ==> i < stems@.len() && (forall|j: int|
            0 <= j < stems@.len() ==> lex_le(stems@[i as int]@, stems@[j]@)) && (forall|j: int|
            0 <= j < i ==> !lex_le(stems@[j]@, stems@[i as int]@)),
{
    if stems.len() == 0 {
        return None;
    }
    let mut best: usize = 0;
    let mut k: usize = 1;
    proof {
        lemma_lex_le_total(stems@[0]@, stems@[0]@);
    }
    while k < stems.len()
        invariant
            best < k <= stems@.len(),
            forall|j: int| 0 <= j < k ==> lex_le(stems@[best as int]@, stems@[j]@),
            forall|j: int| 0 <= j < best ==> !lex_le(stems@[j]@, stems@[best as int]@),
        decreases stems@.len() - k,
    {
        if !lex_le_str(stems[best].as_str(), stems[k].as_str()) {
            proof {
                lemma_lex_le_total(stems@[best as int]@, stems@[k as int]@);
                assert(lex_le(stems@[k as int]@, stems@[best as int]@));
                assert forall|j: int| 0 <= j < k + 1 implies lex_le(
                    stems@[k as int]@,
                    stems@[j]@,
                ) by {
                    if j < k {
                        lemma_lex_le_trans(stems@[k as int]@, stems@[best as int]@, stems@[j]@);
                    } else {
                        lemma_lex_le_total(stems@[k as int]@, stems@[k as int]@);
                    }
                }
                assert forall|j: int| 0 <= j < k implies !lex_le(stems@[j]@, stems@[k as int]@) by {
                    if lex_le(stems@[j]@, stems@[k as int]@) {
                        lemma_lex_le_trans(stems@[j]@, stems@[k as int]@, stems@[best as int]@);
                        if j >= best {
                            lemma_lex_le_antisym(stems@[j]@, stems@[best as int]@);
                        }
                        assert(false);
                    }
                }
            }
            best = k;
        }
        k = k + 1;
    }
    Some(best)
}

/// The whole pruning decision of one rotation: given the directory's entry
/// count and the stems of its entries, the index of the stem to delete — the
/// oldest, exactly one — when the count exceeds LOGS_TO_KEEP, and nothing
/// otherwise.
pub fn prune_target(count: Option<usize>, stems: &Vec<String>) -> (r: Option<usize>)
    ensures
        (r is Some) == ((count matches Some(c) && c > LOGS_TO_KEEP) && stems@.len() > 0),
        r matches Some(i) ==> i < stems@.len() && (forall|j: int|
            0 <= j < stems@.len() ==> lex_le(stems@[i as int]@, stems@[j]@)) && (forall|j: int|
            0 <= j < i ==> !lex_le(stems@[j]@, stems@[i as int]@)),
{
    if should_prune(count) {
        oldest_stem_index(stems)
    } else {
        None
    }
}

impl LogFile {
    /// A rotating file sink that accepts events at least as urgent as
    /// `level`.
    pub fn new(level: Severity) -> (r: Self)
        ensures
            r.level == level,
    {
        LogFile { level }
    }

    /// Whether this sink's filter accepts an event of severity `sev`.
    pub fn enabled(&self, sev: Severity) -> (r: bool)
        ensures
            r == spec_accepts(sev, self.level),
    {
        accepts(sev, self.level)
    }

    /// The line this sink appends to the active file for `event`, or None
    /// when its filter rejects the event: the plain format, elapsed time
    /// first.
    pub fn render(&self, event: &Event, elapsed_ms: u64) -> (r: Option<String>)
        ensures
            (r is Some) == spec_accepts(event.severity, self.level),
            r matches Some(line) ==> line@ == plain_line(
                elapsed_ms as nat,
                event.severity,
                event.message@,
            ),
    {
        if self.enabled(event.severity) {
            Some(format_plain(elapsed_ms, event.severity, event.message.as_str()))
        } else {
            None
        }
    }

    /// Writes are unbuffered, so there is nothing to flush.
    pub fn flush(&self) {
    }
}

} // verus!
