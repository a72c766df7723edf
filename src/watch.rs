//! Waiting for the first build of each watched library. The watchers' output
//! is free text: a line is read as "built" or "failed" by the phrases it
//! holds, which is a best-effort reading of a tool this crate does not
//! control. The caller runs the loop and hands each event to [`WatchProgress::step`].

use vstd::prelude::*;
use vstd::string::*;
use crate::config::{list_has, strings_view};
use crate::text::{contains, has_infix};

verus! {

/// What a watcher's output line says about its build.
#[derive(Clone, Debug, PartialEq, Eq)]
pub enum LineSignal {
    Built,
    Failed,
    Other,
}

/// One thing the waiting loop observed.
#[derive(Clone, Debug, PartialEq, Eq)]
pub enum WatchEvent {
    /// The named library reported a finished build.
    Complete(String),
    /// The named library reported a failed build.
    Failed(String),
    /// Nothing arrived within the poll interval.
    Idle,
    /// Every watcher's output has ended.
    Disconnected,
}

/// What the loop does next.
#[derive(Clone, Debug, PartialEq, Eq)]
pub enum WatchStep {
    Waiting,
    /// Every library has built once.
    AllBuilt,
    /// The outputs ended before every library built.
    Stopped,
    /// The named library failed.
    BuildFailed(String),
    /// The total wait ran out.
    TimedOut,
}

/// Libraries awaited and those seen built.
#[derive(Clone, Debug)]
pub struct WatchProgress {
    pub total: usize,
    pub completed: Vec<String>,
}

pub open spec fn built_line(l: Seq<char>) -> bool {
    has_infix(l, "✓ Built"@) || has_infix(l, "Build complete"@) || has_infix(l, "Compilation complete"@)
        || has_infix(l, "webpack compiled"@)
}

pub open spec fn failed_line(l: Seq<char>) -> bool {
    has_infix(l, "Build failed"@) || has_infix(l, "✖ Failed"@) || has_infix(l, "ERROR"@)
}

/// Reads one output line: "built" phrases win over "failed" ones.
pub fn classify_build_line(line: &str) -> (r: LineSignal)
    ensures
        built_line(line@) ==> r == LineSignal::Built,
        !built_line(line@) && failed_line(line@) ==> r == LineSignal::Failed,
        !built_line(line@) && !failed_line(line@) ==> r == LineSignal::Other,
{
    if contains(line, "✓ Built") || contains(line, "Build complete") || contains(
        line,
        "Compilation complete",
    ) || contains(line, "webpack compiled") {
        LineSignal::Built
    } else if contains(line, "Build failed") || contains(line, "✖ Failed") || contains(line, "ERROR") {
        LineSignal::Failed
    } else {
        LineSignal::Other
    }
}

/// Whether a watcher line is worth showing: it mentions an error or a failure.
pub fn is_notable_line(line: &str) -> (r: bool)
    ensures
        r == (has_infix(line@, "Error"@) || has_infix(line@, "ERROR"@) || has_infix(line@, "Failed"@)),
{
    contains(line, "Error") || contains(line, "ERROR") || contains(line, "Failed")
}

impl WatchProgress {
    /// Waiting for `total` libraries, none built yet.
    pub fn new(total: usize) -> (r: WatchProgress)
        ensures
            r.total == total,
            r.completed@.len() == 0,
    {
        WatchProgress { total, completed: Vec::new() }
    }

    /// Every library counted is built.
    pub open spec fn done(&self) -> bool {
        self.completed@.len() >= self.total
    }

    /// Takes one event observed after `elapsed_ms` of waiting. Past the
    /// `timeout_ms` budget the wait ends whatever came; a failure ends it;
    /// a library is counted once however often it reports.
    pub fn step(&mut self, event: WatchEvent, elapsed_ms: u64, timeout_ms: u64) -> (r: WatchStep)
        requires
            strings_view(old(self).completed@).no_duplicates(),
        ensures
            strings_view(final(self).completed@).no_duplicates(),
            final(self).total == old(self).total,
            elapsed_ms > timeout_ms ==> r == WatchStep::TimedOut && *final(self) == *old(self),
            elapsed_ms <= timeout_ms ==> match event {
                WatchEvent::Complete(name) => {
                    &&& strings_view(final(self).completed@) == if strings_view(
                        old(self).completed@,
                    ).contains(name@) {
                        strings_view(old(self).completed@)
                    } else {
                        strings_view(old(self).completed@).push(name@)
                    }
                    &&& r == if final(self).done() {
                        WatchStep::AllBuilt
                    } else {
                        WatchStep::Waiting
                    }
                },
                WatchEvent::Failed(name) => r == WatchStep::BuildFailed(name) && *final(self)
                    == *old(self),
                WatchEvent::Idle => r == WatchStep::Waiting && *final(self) == *old(self),
                WatchEvent::Disconnected => r == WatchStep::Stopped && *final(self) == *old(self),
            },
    {
        if elapsed_ms > timeout_ms {
            return WatchStep::TimedOut;
        }
        match event {
            WatchEvent::Complete(name) => {
                if !list_has(&self.completed, name.as_str()) {
                    let ghost before = strings_view(self.completed@);
                    self.completed.push(name);
                    assert(strings_view(self.completed@) =~= before.push(name@));
                    assert(strings_view(self.completed@).no_duplicates()) by {
                        let ps = strings_view(self.completed@);
                        assert forall|x: int, y: int| 0 <= x < ps.len() && 0 <= y < ps.len() && x != y implies ps[x] != ps[y] by {
                            if x < before.len() && y < before.len() {
                            } else if x < before.len() {
                                assert(before.contains(before[x]));
                            } else if y < before.len() {
                                assert(before.contains(before[y]));
                            }
                        }
                    }
                }
                if self.completed.len() >= self.total {
                    WatchStep::AllBuilt
                } else {
                    WatchStep::Waiting
                }
            },
            WatchEvent::Failed(name) => WatchStep::BuildFailed(name),
            WatchEvent::Idle => WatchStep::Waiting,
            WatchEvent::Disconnected => WatchStep::Stopped,
        }
    }
}

} // verus!
