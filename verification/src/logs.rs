//! Per-service log handling: the selection of the last N lines of a log
//! file's text and its presentation as log entries. Reading and truncating
//! the files themselves is file I/O and happens outside the library; the
//! log path of a service lives in its registry definition.

use vstd::prelude::*;
use vstd::string::StringExecFns;
use crate::clock::now_unix_seconds;
use crate::text::seq_views;

verus! {

/// One presented log line.
pub struct LogEntry {
    pub timestamp: String,
    pub level: String,
    pub message: String,
    pub source: String,
}

/// Mathematical image of a [`LogEntry`].
#[verifier::ext_equal]
pub struct LogEntryV {
    pub timestamp: Seq<char>,
    pub level: Seq<char>,
    pub message: Seq<char>,
    pub source: Seq<char>,
}

impl View for LogEntry {
    type V = LogEntryV;

    open spec fn view(&self) -> LogEntryV {
        LogEntryV {
            timestamp: self.timestamp@,
            level: self.level@,
            message: self.message@,
            source: self.source@,
        }
    }
}

/// The lines of a text, as the standard line splitter yields them: split at
/// line endings, the endings themselves dropped. The exact splitting is the
/// standard library's; the library only carries it.
pub uninterp spec fn lines_of(s: Seq<char>) -> Seq<Seq<char>>;

/// Relies on str::lines: the text's lines in order, line endings dropped;
/// an empty text has no lines. The result depends on the characters alone.
#[verifier::external_body]
fn split_lines(s: &str) -> (r: Vec<String>)
    ensures
        seq_views(r@) == lines_of(s@),
        s@.len() == 0 ==> r@.len() == 0,
{
    s.lines().map(String::from).collect()
}

/// Relies on chrono::DateTime::from_timestamp_secs, rendered with
/// to_rfc3339: the RFC 3339 text of `secs` seconds after the Unix epoch,
/// or the empty string for seconds outside chrono's calendar range (the
/// constructor returns `None` there, so the call cannot panic).
#[verifier::external_body]
fn rfc3339_of_seconds(secs: u64) -> String {
    match chrono::DateTime::<chrono::Utc>::from_timestamp_secs(secs as i64) {
        Some(t) => t.to_rfc3339(),
        None => String::new(),
    }
}

/// Presents the last `want` lines of a log file's text, oldest first, as
/// entries attributed to `source`: the message is the line itself, the
/// level is a fixed informational tag, and the timestamp is the moment of
/// presentation (the files carry none of their own).
pub fn tail_log_entries(contents: &str, want: usize, source: &str) -> (r: Vec<LogEntry>)
    ensures
        r@.len() == if lines_of(contents@).len() <= want {
            lines_of(contents@).len()
        } else {
            want as nat
        },
        forall|i: int|
            0 <= i < r@.len() ==> (#[trigger] r@[i])@.message == lines_of(contents@)[
                lines_of(contents@).len() - r@.len() + i
            ],
        forall|i: int| 0 <= i < r@.len() ==> (#[trigger] r@[i])@.level == "INFO"@,
        forall|i: int| 0 <= i < r@.len() ==> (#[trigger] r@[i])@.source == source@,
{
    let all = split_lines(contents);
    let total = all.len();
    let start = if total > want {
        total - want
    } else {
        0
    };
    let mut out: Vec<LogEntry> = Vec::new();
    let mut i: usize = start;
    while i < total
        invariant
            total == all@.len(),
            seq_views(all@) == lines_of(contents@),
            start == if total > want {
                total - want
            } else {
                0
            },
            start <= i <= total,
            out@.len() == i - start,
            forall|k: int|
                0 <= k < out@.len() ==> (#[trigger] out@[k])@.message == lines_of(contents@)[
                    start + k
                ],
            forall|k: int| 0 <= k < out@.len() ==> (#[trigger] out@[k])@.level == "INFO"@,
            forall|k: int| 0 <= k < out@.len() ==> (#[trigger] out@[k])@.source == source@,
        decreases total - i,
    {
        let entry = LogEntry {
            timestamp: rfc3339_of_seconds(now_unix_seconds()),
            level: String::from_str("INFO"),
            message: all[i].clone(),
            source: String::from_str(source),
        };
        proof {
            assert(seq_views(all@)[i as int] == all@[i as int]@);
        }
        out.push(entry);
        i = i + 1;
    }
    out
}

} // verus!
