//! Rules of the rotating log files: which files are logs, how many are kept,
//! what a new one is called, and the default verbosity of each component.
use vstd::prelude::*;
use crate::text::{chars_of, ends_with_chars, has_prefix, has_suffix, owned, push_str, starts_with_chars};

verus! {

/// Log files kept when pruning.
pub const LOG_FILES_KEPT: usize = 5;

/// Whether a directory entry is one of our log files.
pub fn is_log_file_name(name: &str) -> (is_log: bool)
    ensures
        is_log == (has_prefix(name@, "tacklecast_"@) && has_suffix(name@, ".log"@)),
{
    let n = chars_of(name);
    starts_with_chars(n.as_slice(), chars_of("tacklecast_").as_slice()) && ends_with_chars(
        n.as_slice(),
        chars_of(".log").as_slice(),
    )
}

/// How many of `count` log files (oldest first) to delete so that
/// [`LOG_FILES_KEPT`] remain.
pub fn logs_to_prune(count: usize) -> (remove: usize)
    ensures
        remove == if count > LOG_FILES_KEPT {
            (count - LOG_FILES_KEPT) as usize
        } else {
            0
        },
{
    count.saturating_sub(LOG_FILES_KEPT)
}

/// The name of a new log file for a `YYYYMMDD_HHMMSS` time stamp.
pub fn log_file_name(stamp: &str) -> (name: String)
    ensures
        name@ == "tacklecast_"@ + stamp@ + ".log"@,
{
    let mut name = owned("tacklecast_");
    push_str(&mut name, stamp);
    push_str(&mut name, ".log");
    name
}

/// Law: every name made by [`log_file_name`] is recognised by
/// [`is_log_file_name`], so new logs take part in pruning.
pub proof fn lemma_log_names_recognised(stamp: Seq<char>)
    ensures
        has_prefix("tacklecast_"@ + stamp + ".log"@, "tacklecast_"@),
        has_suffix("tacklecast_"@ + stamp + ".log"@, ".log"@),
{
    let name = "tacklecast_"@ + stamp + ".log"@;
    assert(name.subrange(0, "tacklecast_"@.len() as int) == "tacklecast_"@);
    assert(name.subrange(name.len() - ".log"@.len(), name.len() as int) == ".log"@);
}

/// Per-component verbosity used when no filter is given in the environment.
pub fn default_log_directives() -> (directives: Vec<&'static str>)
    ensures
        directives@.map_values(|d: &str| d@) == seq![
            "tacklecast=info"@,
            "wgpu_hal=warn"@,
            "wgpu_core=warn"@,
            "wgpu=warn"@,
            "naga=warn"@,
            "egui_wgpu=warn"@,
            "ash=warn"@,
        ],
{
    let directives = vec![
        "tacklecast=info",
        "wgpu_hal=warn",
        "wgpu_core=warn",
        "wgpu=warn",
        "naga=warn",
        "egui_wgpu=warn",
        "ash=warn",
    ];
    assert(directives@.map_values(|d: &str| d@) == seq![
        "tacklecast=info"@,
        "wgpu_hal=warn"@,
        "wgpu_core=warn"@,
        "wgpu=warn"@,
        "naga=warn"@,
        "egui_wgpu=warn"@,
        "ash=warn"@,
    ]);
    directives
}


/// Log file `a` (modification time `ta`, listed at position `ia`) sorts
/// before log file `b`: files without a known time first, then by time,
/// ties kept in listing order.
pub open spec fn sorts_before(ta: Option<i128>, ia: int, tb: Option<i128>, ib: int) -> bool {
    match (ta, tb) {
        (None, None) => ia < ib,
        (None, Some(_)) => true,
        (Some(_), None) => false,
        (Some(x), Some(y)) => x < y || (x == y && ia < ib),
    }
}

/// How many of the first `upto` log files sort before file `i`.
pub open spec fn rank_below(times: Seq<Option<i128>>, i: int, upto: int) -> nat
    decreases upto,
{
    if upto <= 0 {
        0
    } else {
        rank_below(times, i, upto - 1) + if sorts_before(times[upto - 1], upto - 1, times[i], i) {
            1nat
        } else {
            0nat
        }
    }
}

/// The position of log file `i` when the files are sorted oldest first.
pub open spec fn age_rank(times: Seq<Option<i128>>, i: int) -> nat {
    rank_below(times, i, times.len() as int)
}

/// Which of the log files (given by modification time, `None` when unknown)
/// to delete: the oldest ones, so that [`LOG_FILES_KEPT`] remain.
pub fn logs_to_remove(times: &[Option<i128>]) -> (remove: Vec<bool>)
    ensures
        remove@.len() == times@.len(),
        forall|i: int| 0 <= i < times@.len() ==> #[trigger] remove@[i] == (age_rank(times@, i) + LOG_FILES_KEPT < times@.len()),
{
    let n = times.len();
    let excess = logs_to_prune(n);
    let mut remove: Vec<bool> = Vec::new();
    let mut i: usize = 0;
    while i < n
        invariant
            n == times@.len(),
            i <= n,
            excess == if n > LOG_FILES_KEPT { (n - LOG_FILES_KEPT) as usize } else { 0 },
            remove@.len() == i,
            forall|k: int| 0 <= k < i ==> #[trigger] remove@[k] == (age_rank(times@, k) + LOG_FILES_KEPT < n),
        decreases n - i,
    {
        let mut rank: usize = 0;
        let mut j: usize = 0;
        while j < n
            invariant
                n == times@.len(),
                i < n,
                j <= n,
                rank == rank_below(times@, i as int, j as int),
                rank <= j,
            decreases n - j,
        {
            let before = match (times[j], times[i]) {
                (None, None) => j < i,
                (None, Some(_)) => true,
                (Some(_), None) => false,
                (Some(x), Some(y)) => x < y || (x == y && j < i),
            };
            if before {
                rank += 1;
            }
            j += 1;
        }
        remove.push(rank < excess);
        i += 1;
    }
    remove
}

proof fn lemma_rank_below_monotone(times: Seq<Option<i128>>, a: int, b: int, upto: int)
    requires
        0 <= a < times.len(),
        0 <= b < times.len(),
        0 <= upto <= times.len(),
        sorts_before(times[a], a, times[b], b),
    ensures
        rank_below(times, a, upto) + (if a < upto { 1nat } else { 0nat }) <= rank_below(times, b, upto),
    decreases upto,
{
    if upto > 0 {
        lemma_rank_below_monotone(times, a, b, upto - 1);
    }
}

/// Law: pruning never deletes a log file while keeping an older one.
pub proof fn lemma_prune_oldest_first(times: Seq<Option<i128>>, older: int, newer: int)
    requires
        0 <= older < times.len(),
        0 <= newer < times.len(),
        sorts_before(times[older], older, times[newer], newer),
    ensures
        age_rank(times, older) < age_rank(times, newer),
        age_rank(times, newer) + LOG_FILES_KEPT < times.len() ==> age_rank(times, older)
            + LOG_FILES_KEPT < times.len(),
{
    lemma_rank_below_monotone(times, older, newer, times.len() as int);
}

} // verus!
