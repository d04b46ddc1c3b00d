use vstd::prelude::*;

use crate::log_file::LOGS_TO_KEEP;
use crate::log_file::MAX_LOG_SIZE;

verus! {

/// Abstract state of the log directory, as the rotating file sink maintains
/// it: the lines of the active file, the active file's size in bytes, and
/// the timestamps of the archives, oldest first. It models a directory that
/// holds only this sink's files and whose renames succeed.
pub struct DirState {
    pub current_lines: Seq<Seq<char>>,
    pub current_bytes: nat,
    pub archives: Seq<nat>,
}

/// A directory with an empty active file and no archives.
pub open spec fn empty_dir() -> DirState {
    DirState { current_lines: Seq::empty(), current_bytes: 0, archives: Seq::empty() }
}

/// Timestamps grow along the archive list: oldest first. Monotone clocks
/// keep every reachable state in this shape.
pub open spec fn ordered(d: DirState) -> bool {
    forall|i: int, j: int| 0 <= i < j < d.archives.len() ==> d.archives[i] < d.archives[j]
}

/// One rotation at time `now_ms`: the active file becomes the archive
/// stamped `now_ms` and a fresh active file starts; when the directory then
/// holds more entries than LOGS_TO_KEEP, the oldest archive — the first —
/// is deleted, and only that one.
pub open spec fn rotate_step(d: DirState, now_ms: nat) -> DirState {
    let rolled = DirState {
        current_lines: Seq::empty(),
        current_bytes: 0,
        archives: d.archives.push(now_ms),
    };
    if rolled.archives.len() > LOGS_TO_KEEP {
        DirState {
            current_lines: rolled.current_lines,
            current_bytes: rolled.current_bytes,
            archives: rolled.archives.drop_first(),
        }
    } else {
        rolled
    }
}

/// One write of a formatted line of `line_bytes` bytes at time `now_ms`:
/// the line is appended, and rotation follows exactly when the size the
/// append leaves behind reaches MAX_LOG_SIZE.
pub open spec fn write_step(d: DirState, line: Seq<char>, line_bytes: nat, now_ms: nat) -> DirState {
    let appended = DirState {
        current_lines: d.current_lines.push(line),
        current_bytes: d.current_bytes + line_bytes,
        archives: d.archives,
    };
    if appended.current_bytes >= MAX_LOG_SIZE {
        rotate_step(appended, now_ms)
    } else {
        appended
    }
}

/// Law: the write that makes the active file's size cross MAX_LOG_SIZE
/// triggers exactly one rotation before it returns — the state it leaves is
/// one rotation of the appended state, the active file starts over empty,
/// and the archive stamped with the rotation time is present — while a
/// write that stays under the cap rotates nothing and only appends.
pub proof fn lemma_write_crossing(d: DirState, line: Seq<char>, line_bytes: nat, now_ms: nat)
    ensures
        d.current_bytes + line_bytes >= MAX_LOG_SIZE ==> write_step(d, line, line_bytes, now_ms)
            == rotate_step(
            DirState {
                current_lines: d.current_lines.push(line),
                current_bytes: d.current_bytes + line_bytes,
                archives: d.archives,
            },
            now_ms,
        ),
        d.current_bytes + line_bytes >= MAX_LOG_SIZE ==> write_step(
            d,
            line,
            line_bytes,
            now_ms,
        ).current_lines.len() == 0 && write_step(d, line, line_bytes, now_ms).archives.contains(
            now_ms,
        ),
        d.current_bytes + line_bytes < MAX_LOG_SIZE ==> write_step(d, line, line_bytes, now_ms)
            == (DirState {
            current_lines: d.current_lines.push(line),
            current_bytes: d.current_bytes + line_bytes,
            archives: d.archives,
        }),
{
    if d.current_bytes + line_bytes >= MAX_LOG_SIZE {
        let pushed = d.archives.push(now_ms);
        assert(pushed[pushed.len() - 1] == now_ms);
        if pushed.len() > LOGS_TO_KEEP {
            assert(pushed.drop_first()[pushed.len() - 2] == now_ms);
            assert(pushed.drop_first().contains(now_ms));
        } else {
            assert(pushed.contains(now_ms));
        }
    }
}

/// Law: under a monotone clock the archive list stays ordered oldest first
/// across a rotation, and when the rotation prunes, what it removes is the
/// numerically oldest archive.
pub proof fn lemma_rotate_prunes_oldest(d: DirState, now_ms: nat)
    requires
        ordered(d),
        forall|i: int| 0 <= i < d.archives.len() ==> d.archives[i] < now_ms,
    ensures
        ordered(rotate_step(d, now_ms)),
        d.archives.len() >= LOGS_TO_KEEP ==> rotate_step(d, now_ms).archives == d.archives.push(
            now_ms,
        ).drop_first() && (forall|i: int|
            0 <= i < d.archives.len() ==> d.archives[0] <= #[trigger] d.archives[i]),
{
    let pushed = d.archives.push(now_ms);
    assert forall|i: int, j: int| 0 <= i < j < pushed.len() implies pushed[i] < pushed[j] by {
        if j < pushed.len() - 1 {
            assert(pushed[i] == d.archives[i] && pushed[j] == d.archives[j]);
        } else {
            assert(pushed[j] == now_ms);
        }
    }
    let after = rotate_step(d, now_ms);
    assert forall|i: int, j: int|
        0 <= i < j < after.archives.len() implies after.archives[i] < after.archives[j] by {
        if pushed.len() > LOGS_TO_KEEP {
            assert(after.archives[i] == pushed[i + 1]);
            assert(after.archives[j] == pushed[j + 1]);
        }
    }
}

/// Law: once the directory is within the retention budget, no write takes it
/// back out — after any rotation completes, at most LOGS_TO_KEEP archives
/// remain.
pub proof fn lemma_write_preserves_cap(d: DirState, line: Seq<char>, line_bytes: nat, now_ms: nat)
    requires
        d.archives.len() <= LOGS_TO_KEEP,
    ensures
        write_step(d, line, line_bytes, now_ms).archives.len() <= LOGS_TO_KEEP,
{
}

/// Every rotation in `times`, oldest first, applied to `d`.
pub open spec fn rotate_all(d: DirState, times: Seq<nat>) -> DirState
    decreases times.len(),
{
    if times.len() == 0 {
        d
    } else {
        rotate_all(rotate_step(d, times[0]), times.drop_first())
    }
}

/// How many archives a run of rotations leaves: each rotation adds one and
/// prunes one as soon as the count would pass LOGS_TO_KEEP, so the count
/// climbs to the cap and stays there.
pub proof fn lemma_rotation_count(d: DirState, times: Seq<nat>)
    requires
        d.archives.len() <= LOGS_TO_KEEP,
    ensures
        rotate_all(d, times).archives.len() == if d.archives.len() + times.len() <= LOGS_TO_KEEP {
            d.archives.len() + times.len()
        } else {
            LOGS_TO_KEEP as nat
        },
    decreases times.len(),
{
    if times.len() > 0 {
        lemma_rotation_count(rotate_step(d, times[0]), times.drop_first());
    }
}

/// Law: starting from a fresh directory, once more than LOGS_TO_KEEP
/// rotations have happened, exactly LOGS_TO_KEEP archives are present.
pub proof fn lemma_retention(times: Seq<nat>)
    requires
        times.len() > LOGS_TO_KEEP,
    ensures
        rotate_all(empty_dir(), times).archives.len() == LOGS_TO_KEEP,
{
    lemma_rotation_count(empty_dir(), times);
}

} // verus!
