//! Metrics: how many operations were carried out, of which command, and
//! how long they took.

use vstd::prelude::*;
use crate::counter::{wrapped_sum, wrapping_sum};
use crate::text::{decimal, decimal_text, str_eq};

verus! {

/// What a metrics collector holds.
pub struct MetricsModel {
    /// Number of operations, modulo 2^64.
    pub total_ops: u64,
    /// Number of operations of each command that was seen, in the order
    /// in which the commands were first seen.
    pub by_command: Seq<(Seq<char>, u64)>,
    /// Sum of the latencies in microseconds, modulo 2^64.
    pub latency_sum_us: u64,
    /// Number of latencies, modulo 2^64.
    pub latency_count: u64,
    /// Least latency, or the greatest number where none was recorded.
    pub latency_min_us: u64,
    /// Greatest latency, or zero where none was recorded.
    pub latency_max_us: u64,
}

/// Whether a command was seen.
pub open spec fn seen(by_command: Seq<(Seq<char>, u64)>, command: Seq<char>) -> bool {
    exists|i: int| 0 <= i < by_command.len() && (#[trigger] by_command[i]).0 == command
}

/// The place of a command that was seen.
pub open spec fn command_index(by_command: Seq<(Seq<char>, u64)>, command: Seq<char>) -> int {
    choose|i: int| 0 <= i < by_command.len() && (#[trigger] by_command[i]).0 == command
}

/// The counts after one more operation of a command.
pub open spec fn counted(by_command: Seq<(Seq<char>, u64)>, command: Seq<char>) -> Seq<
    (Seq<char>, u64),
> {
    if seen(by_command, command) {
        let i = command_index(by_command, command);
        by_command.update(i, (command, wrapped_sum(by_command[i].1, 1)))
    } else {
        by_command.push((command, 1))
    }
}

impl MetricsModel {
    /// What a collector holds that has recorded nothing: the least
    /// latency is then the greatest number.
    pub open spec fn fresh() -> MetricsModel {
        MetricsModel {
            total_ops: 0,
            by_command: Seq::empty(),
            latency_sum_us: 0,
            latency_count: 0,
            latency_min_us: u64::MAX,
            latency_max_us: 0,
        }
    }

    /// The metrics after an operation of a command that took
    /// `latency_us` microseconds.
    pub open spec fn recorded(self, command: Seq<char>, latency_us: u64) -> MetricsModel {
        MetricsModel {
            total_ops: wrapped_sum(self.total_ops, 1),
            by_command: counted(self.by_command, command),
            latency_sum_us: wrapped_sum(self.latency_sum_us, latency_us),
            latency_count: wrapped_sum(self.latency_count, 1),
            latency_min_us: if latency_us < self.latency_min_us {
                latency_us
            } else {
                self.latency_min_us
            },
            latency_max_us: if latency_us > self.latency_max_us {
                latency_us
            } else {
                self.latency_max_us
            },
        }
    }

    /// The average latency in tenths of a microsecond, rounded down and
    /// no greater than 64 bits hold, or zero where none was recorded.
    pub open spec fn avg_tenths(self) -> int {
        if self.latency_count == 0 {
            0
        } else if (self.latency_sum_us * 10) / (self.latency_count as int) > u64::MAX {
            u64::MAX as int
        } else {
            (self.latency_sum_us * 10) / (self.latency_count as int)
        }
    }

    /// The least latency, or zero where none was recorded.
    pub open spec fn min_or_zero(self) -> u64 {
        if self.latency_min_us == u64::MAX {
            0
        } else {
            self.latency_min_us
        }
    }

    /// The summary line.
    pub open spec fn summary_text(self) -> Seq<char> {
        "Operations: "@ + decimal_text(self.total_ops as nat) + " | Latency (\u{b5}s): avg="@
            + decimal_text((self.avg_tenths() / 10) as nat) + "."@ + decimal_text(
            (self.avg_tenths() % 10) as nat,
        ) + ", min="@ + decimal_text(self.min_or_zero() as nat) + ", max="@ + decimal_text(
            self.latency_max_us as nat,
        )
    }
}

/// The counts that a table holds.
pub open spec fn counts_view(table: Seq<(String, u64)>) -> Seq<(Seq<char>, u64)> {
    Seq::new(table.len(), |i: int| (table[i].0@, table[i].1))
}

/// Metrics collector.
#[derive(Debug)]
pub struct Metrics {
    total_ops: u64,
    ops_by_command: Vec<(String, u64)>,
    latency_sum_us: u64,
    latency_count: u64,
    latency_min_us: u64,
    latency_max_us: u64,
}

impl View for Metrics {
    type V = MetricsModel;

    closed spec fn view(&self) -> MetricsModel {
        MetricsModel {
            total_ops: self.total_ops,
            by_command: counts_view(self.ops_by_command@),
            latency_sum_us: self.latency_sum_us,
            latency_count: self.latency_count,
            latency_min_us: self.latency_min_us,
            latency_max_us: self.latency_max_us,
        }
    }
}

impl Default for Metrics {
    fn default() -> (m: Metrics)
        ensures
            m.wf(),
            m@ == MetricsModel::fresh(),
    {
        Metrics::new()
    }
}

impl Metrics {
    /// No command is counted twice.
    pub open spec fn wf(&self) -> bool {
        forall|i: int, j: int|
            0 <= i < j < self@.by_command.len() ==> (#[trigger] self@.by_command[i]).0 != (
            #[trigger] self@.by_command[j]).0
    }

    /// A collector that has recorded nothing.
    pub fn new() -> (m: Metrics)
        ensures
            m.wf(),
            m@ == MetricsModel::fresh(),
    {
        let m = Metrics {
            total_ops: 0,
            ops_by_command: Vec::new(),
            latency_sum_us: 0,
            latency_count: 0,
            latency_min_us: u64::MAX,
            latency_max_us: 0,
        };
        assert(m@.by_command =~= Seq::<(Seq<char>, u64)>::empty());
        m
    }

    fn find(&self, command: &str) -> (r: Option<usize>)
        ensures
            match r {
                Some(i) => i < self@.by_command.len() && self@.by_command[i as int].0 == command@,
                None => !seen(self@.by_command, command@),
            },
    {
        let mut i: usize = 0;
        while i < self.ops_by_command.len()
            invariant
                i <= self.ops_by_command@.len(),
                forall|j: int| 0 <= j < i ==> (#[trigger] self@.by_command[j]).0 != command@,
            decreases self.ops_by_command@.len() - i,
        {
            if str_eq(self.ops_by_command[i].0.as_str(), command) {
                return Some(i);
            }
            i += 1;
        }
        None
    }

    /// Records an operation of `command` that took `latency_us`
    /// microseconds.
    pub fn record_operation(&mut self, command: &str, latency_us: u64)
        requires
            old(self).wf(),
        ensures
            final(self).wf(),
            final(self)@ == old(self)@.recorded(command@, latency_us),
    {
        self.total_ops = wrapping_sum(self.total_ops, 1);
        let ghost before = self@.by_command;
        assert(before == old(self)@.by_command);
        match self.find(command) {
            Some(i) => {
                proof {
                    let c = command_index(before, command@);
                    if c < i {
                        assert(before[c].0 != before[i as int].0);
                    } else if c > i {
                        assert(before[i as int].0 != before[c].0);
                    }
                }
                let (name, count) = self.ops_by_command.remove(i);
                self.ops_by_command.insert(i, (name, wrapping_sum(count, 1)));
                proof {
                    let after = self@.by_command;
                    assert(after =~= before.update(
                        i as int,
                        (command@, wrapped_sum(before[i as int].1, 1)),
                    ));
                    assert forall|a: int, b: int| 0 <= a < b < after.len() implies (
                    #[trigger] after[a]).0 != (#[trigger] after[b]).0 by {
                        assert(before[a].0 != before[b].0);
                    }
                }
            },
            None => {
                self.ops_by_command.push((String::from_str(command), 1));
                proof {
                    let after = self@.by_command;
                    assert(after =~= before.push((command@, 1)));
                    assert forall|a: int, b: int| 0 <= a < b < after.len() implies (
                    #[trigger] after[a]).0 != (#[trigger] after[b]).0 by {
                        if b < before.len() {
                            assert(before[a].0 != before[b].0);
                        } else {
                            assert(before[a].0 != command@);
                        }
                    }
                }
            },
        }
        self.latency_sum_us = wrapping_sum(self.latency_sum_us, latency_us);
        self.latency_count = wrapping_sum(self.latency_count, 1);
        if latency_us < self.latency_min_us {
            self.latency_min_us = latency_us;
        }
        if latency_us > self.latency_max_us {
            self.latency_max_us = latency_us;
        }
    }

    /// The number of operations.
    pub fn total_ops(&self) -> (n: u64)
        ensures
            n == self@.total_ops,
    {
        self.total_ops
    }

    /// The number of operations of each command, in the order in which
    /// the commands were first seen.
    pub fn ops_by_command(&self) -> (r: Vec<(String, u64)>)
        ensures
            counts_view(r@) == self@.by_command,
    {
        let mut out: Vec<(String, u64)> = Vec::new();
        let mut i: usize = 0;
        while i < self.ops_by_command.len()
            invariant
                i <= self.ops_by_command@.len(),
                out@.len() == i,
                forall|j: int|
                    0 <= j < i ==> (#[trigger] out@[j]).0@ == self.ops_by_command@[j].0@
                        && out@[j].1 == self.ops_by_command@[j].1,
            decreases self.ops_by_command@.len() - i,
        {
            out.push((self.ops_by_command[i].0.clone(), self.ops_by_command[i].1));
            i += 1;
        }
        assert(counts_view(out@) =~= self@.by_command);
        out
    }

    /// The number of operations of one command.
    pub fn ops_of(&self, command: &str) -> (n: u64)
        requires
            self.wf(),
        ensures
            n == if seen(self@.by_command, command@) {
                self@.by_command[command_index(self@.by_command, command@)].1
            } else {
                0
            },
    {
        match self.find(command) {
            Some(i) => {
                proof {
                    let c = command_index(self@.by_command, command@);
                    if c < i {
                        assert(self@.by_command[c].0 != self@.by_command[i as int].0);
                    } else if c > i {
                        assert(self@.by_command[i as int].0 != self@.by_command[c].0);
                    }
                }
                self.ops_by_command[i].1
            },
            None => 0,
        }
    }

    /// The sum of the recorded latencies in microseconds.
    pub fn latency_sum_us(&self) -> (n: u64)
        ensures
            n == self@.latency_sum_us,
    {
        self.latency_sum_us
    }

    /// The number of recorded latencies.
    pub fn latency_count(&self) -> (n: u64)
        ensures
            n == self@.latency_count,
    {
        self.latency_count
    }

    /// The average latency in tenths of a microsecond, rounded down.
    pub fn avg_latency_tenths(&self) -> (avg: u64)
        ensures
            avg == self@.avg_tenths(),
    {
        if self.latency_count == 0 {
            return 0;
        }
        let scaled: u128 = self.latency_sum_us as u128 * 10;
        let quotient: u128 = scaled / (self.latency_count as u128);
        if quotient > u64::MAX as u128 {
            u64::MAX
        } else {
            quotient as u64
        }
    }

    /// The least latency in microseconds, or zero where none was recorded.
    pub fn min_latency_us(&self) -> (n: u64)
        ensures
            n == self@.min_or_zero(),
    {
        if self.latency_min_us == u64::MAX {
            0
        } else {
            self.latency_min_us
        }
    }

    /// The greatest latency in microseconds.
    pub fn max_latency_us(&self) -> (n: u64)
        ensures
            n == self@.latency_max_us,
    {
        self.latency_max_us
    }

    /// A line that sums the metrics up; the average has one decimal,
    /// rounded down.
    pub fn summary(&self) -> (s: String)
        ensures
            s@ == self@.summary_text(),
    {
        let avg = self.avg_latency_tenths();
        let mut s = String::from_str("Operations: ");
        let total = decimal(self.total_ops());
        s.append(total.as_str());
        s.append(" | Latency (\u{b5}s): avg=");
        let whole = decimal(avg / 10);
        s.append(whole.as_str());
        s.append(".");
        let tenth = decimal(avg % 10);
        s.append(tenth.as_str());
        s.append(", min=");
        let min = decimal(self.min_latency_us());
        s.append(min.as_str());
        s.append(", max=");
        let max = decimal(self.max_latency_us());
        s.append(max.as_str());
        s
    }
}

} // verus!
