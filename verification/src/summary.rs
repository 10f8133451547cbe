//! The summary of a scan: the results in the order in which they came in, and
//! how many ports were found in each state.

use crate::outcome::{PortResult, PortStatus};
use vstd::prelude::*;

verus! {

/// How many of `results` have the status `status`.
pub open spec fn count_status(results: Seq<PortResult>, status: PortStatus) -> nat
    decreases results.len(),
{
    if results.len() == 0 {
        0
    } else {
        count_status(results.drop_last(), status) + if results.last()@.status == status {
            1nat
        } else {
            0nat
        }
    }
}

/// Every result has exactly one of the three states: the three counts add up
/// to the number of results.
pub proof fn lemma_counts_add_up(results: Seq<PortResult>)
    ensures
        count_status(results, PortStatus::Open) + count_status(results, PortStatus::Closed)
            + count_status(results, PortStatus::Filtered) == results.len(),
    decreases results.len(),
{
    if results.len() > 0 {
        lemma_counts_add_up(results.drop_last());
    }
}

/// No count is above the number of results.
pub proof fn lemma_count_bounded(results: Seq<PortResult>, status: PortStatus)
    ensures
        count_status(results, status) <= results.len(),
    decreases results.len(),
{
    if results.len() > 0 {
        lemma_count_bounded(results.drop_last(), status);
    }
}

/// What a `ScanSummary` holds, as plain values.
pub struct SummaryReport {
    pub target: Seq<char>,
    pub scanned_ports: nat,
    pub open_ports: nat,
    pub closed_ports: nat,
    pub filtered_ports: nat,
    pub total_time_ms: u128,
    pub results: Seq<PortResult>,
}

impl SummaryReport {
    /// Whether the counts are those of the results.
    pub open spec fn wf(self) -> bool {
        &&& self.scanned_ports == self.results.len()
        &&& self.open_ports == count_status(self.results, PortStatus::Open)
        &&& self.closed_ports == count_status(self.results, PortStatus::Closed)
        &&& self.filtered_ports == count_status(self.results, PortStatus::Filtered)
    }
}

/// The summary of `results` for `target`.
pub open spec fn summary_of(target: Seq<char>, results: Seq<PortResult>, total_time_ms: u128)
    -> SummaryReport {
    SummaryReport {
        target,
        scanned_ports: results.len(),
        open_ports: count_status(results, PortStatus::Open),
        closed_ports: count_status(results, PortStatus::Closed),
        filtered_ports: count_status(results, PortStatus::Filtered),
        total_time_ms,
        results,
    }
}

/// In a well-formed summary the three counts add up to the number of ports
/// scanned.
pub proof fn lemma_summary_adds_up(summary: SummaryReport)
    requires
        summary.wf(),
    ensures
        summary.open_ports + summary.closed_ports + summary.filtered_ports
            == summary.scanned_ports,
{
    lemma_counts_add_up(summary.results);
}

/// The outcome of a whole scan. It is made once and cannot be changed
/// afterwards.
#[derive(Debug)]
pub struct ScanSummary {
    target: String,
    scanned_ports: usize,
    open_ports: usize,
    closed_ports: usize,
    filtered_ports: usize,
    total_time_ms: u128,
    results: Vec<PortResult>,
}

impl View for ScanSummary {
    type V = SummaryReport;

    closed spec fn view(&self) -> SummaryReport {
        SummaryReport {
            target: self.target@,
            scanned_ports: self.scanned_ports as nat,
            open_ports: self.open_ports as nat,
            closed_ports: self.closed_ports as nat,
            filtered_ports: self.filtered_ports as nat,
            total_time_ms: self.total_time_ms,
            results: self.results@,
        }
    }
}

/// How many of `results` have the status `status`.
pub fn count_with_status(results: &Vec<PortResult>, status: PortStatus) -> (n: usize)
    ensures
        n == count_status(results@, status),
{
    let mut n: usize = 0;
    let mut i: usize = 0;
    while i < results.len()
        invariant
            i <= results.len(),
            n <= i,
            n == count_status(results@.take(i as int), status),
        decreases results.len() - i,
    {
        assert(results@.take(i + 1).drop_last() == results@.take(i as int));
        if results[i].status() == status {
            n += 1;
        }
        i += 1;
    }
    assert(results@.take(i as int) == results@);
    n
}

impl ScanSummary {
    #[verifier::type_invariant]
    closed spec fn inv(self) -> bool {
        self@.wf()
    }

    /// Sums up `results`, in the order given, for the scan of `target` that
    /// took `total_time_ms` milliseconds.
    pub fn new(target: String, results: Vec<PortResult>, total_time_ms: u128) -> (summary:
        ScanSummary)
        ensures
            summary@ == summary_of(target@, results@, total_time_ms),
            summary@.wf(),
    {
        let open_ports = count_with_status(&results, PortStatus::Open);
        let closed_ports = count_with_status(&results, PortStatus::Closed);
        let filtered_ports = count_with_status(&results, PortStatus::Filtered);
        ScanSummary {
            target,
            scanned_ports: results.len(),
            open_ports,
            closed_ports,
            filtered_ports,
            total_time_ms,
            results,
        }
    }

    /// What was scanned.
    pub fn target(&self) -> (target: &str)
        ensures
            target@ == self@.target,
    {
        self.target.as_str()
    }

    /// How many ports have a result. The three counts by status add up to
    /// this number.
    pub fn scanned_ports(&self) -> (n: usize)
        ensures
            n == self@.scanned_ports,
            self@.wf(),
            n == self@.open_ports + self@.closed_ports + self@.filtered_ports,
    {
        proof {
            use_type_invariant(self);
            lemma_summary_adds_up(self@);
        }
        self.scanned_ports
    }

    /// How many ports were found open.
    pub fn open_ports(&self) -> (n: usize)
        ensures
            n == self@.open_ports,
    {
        self.open_ports
    }

    /// How many ports were found closed.
    pub fn closed_ports(&self) -> (n: usize)
        ensures
            n == self@.closed_ports,
    {
        self.closed_ports
    }

    /// How many ports were found filtered.
    pub fn filtered_ports(&self) -> (n: usize)
        ensures
            n == self@.filtered_ports,
    {
        self.filtered_ports
    }

    /// How long the whole scan took, in milliseconds.
    pub fn total_time_ms(&self) -> (ms: u128)
        ensures
            ms == self@.total_time_ms,
    {
        self.total_time_ms
    }

    /// The results, in the order in which the probes ended.
    pub fn results(&self) -> (results: &Vec<PortResult>)
        ensures
            results@ == self@.results,
    {
        &self.results
    }
}

} // verus!
