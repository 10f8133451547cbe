//! The plain-text report of a scan: a heading, then one line for each result
//! in the order of the summary.

use crate::layout::{
    decimal, flat_text, flatten, pad_right, pad_right_text, push_decimal,
};
use crate::outcome::{PortReport, PortResult, PortStatus};
use crate::render::{or_dash, or_dash_text, port_column, port_column_text, status_text};
use crate::summary::{ScanSummary, SummaryReport};
use vstd::prelude::*;
use vstd::string::StringExecFns;

verus! {

/// The width of the column that holds the service.
pub const SERVICE_WIDTH: usize = 12;

/// The words under which the three states appear in a report.
#[derive(Debug)]
pub struct StatusWords {
    pub open: String,
    pub closed: String,
    pub filtered: String,
}

impl StatusWords {
    /// The word for `status`.
    pub open spec fn word_text(self, status: PortStatus) -> Seq<char> {
        match status {
            PortStatus::Open => self.open@,
            PortStatus::Closed => self.closed@,
            PortStatus::Filtered => self.filtered@,
        }
    }

    /// The plain words: `open`, `closed`, `filtered`.
    pub fn plain() -> (words: StatusWords)
        ensures
            forall|status: PortStatus| words.word_text(status) == status_text(status),
    {
        StatusWords {
            open: "open".to_owned(),
            closed: "closed".to_owned(),
            filtered: "filtered".to_owned(),
        }
    }

    /// The word for `status`.
    pub fn word(&self, status: PortStatus) -> (word: &str)
        ensures
            word@ == self.word_text(status),
    {
        match status {
            PortStatus::Open => self.open.as_str(),
            PortStatus::Closed => self.closed.as_str(),
            PortStatus::Filtered => self.filtered.as_str(),
        }
    }
}

/// The heading of a report.
pub open spec fn report_header_text(target: Seq<char>, scanned: nat, total_time_ms: u128) -> Seq<
    char,
> {
    "Scan of "@ + target + " | Ports: "@ + decimal(scanned) + " | Time: "@ + decimal(
        total_time_ms as nat,
    ) + "ms\n\n"@
}

/// The line of one result in a report: the port flush right in its column,
/// the word for the status, the service flush left in its column, and the
/// banner on one line; a dash stands for a service or banner that is missing.
pub open spec fn report_line_text(result: PortReport, words: StatusWords) -> Seq<char> {
    "Port "@ + port_column_text(result.port) + " | "@ + words.word_text(result.status)
        + " | Service: "@ + pad_right_text(or_dash_text(result.service), SERVICE_WIDTH as nat)
        + " | Banner: "@ + flat_text(or_dash_text(result.banner)) + "\n"@
}

/// The lines of `results` in a report, one after the other.
pub open spec fn report_lines_text(results: Seq<PortResult>, words: StatusWords) -> Seq<char>
    decreases results.len(),
{
    if results.len() == 0 {
        Seq::empty()
    } else {
        report_lines_text(results.drop_last(), words) + report_line_text(results.last()@, words)
    }
}

/// The report of a scan.
pub open spec fn report_text(summary: SummaryReport, words: StatusWords) -> Seq<char> {
    report_header_text(summary.target, summary.scanned_ports, summary.total_time_ms)
        + report_lines_text(summary.results, words)
}

/// The heading of a report.
pub fn report_header(target: &str, scanned: usize, total_time_ms: u128) -> (text: String)
    ensures
        text@ == report_header_text(target@, scanned as nat, total_time_ms),
{
    let mut text = "Scan of ".to_owned();
    text.append(target);
    text.append(" | Ports: ");
    push_decimal(&mut text, scanned as u128);
    text.append(" | Time: ");
    push_decimal(&mut text, total_time_ms);
    text.append("ms\n\n");
    text
}

/// The line of one result in a report.
pub fn report_line(result: &PortResult, words: &StatusWords) -> (text: String)
    ensures
        text@ == report_line_text(result@, *words),
{
    let port = port_column(result.port());
    let service = pad_right(or_dash(result.service()), SERVICE_WIDTH);
    let banner = flatten(or_dash(result.banner()));
    let mut text = "Port ".to_owned();
    text.append(port.as_str());
    text.append(" | ");
    text.append(words.word(result.status()));
    text.append(" | Service: ");
    text.append(service.as_str());
    text.append(" | Banner: ");
    text.append(banner.as_str());
    text.append("\n");
    text
}

/// The report of a scan, with the states under the given words.
pub fn text_report(summary: &ScanSummary, words: &StatusWords) -> (text: String)
    ensures
        text@ == report_text(summary@, *words),
{
    let results = summary.results();
    let mut text = report_header(summary.target(), summary.scanned_ports(), summary.total_time_ms());
    let ghost header = text@;
    let mut i: usize = 0;
    while i < results.len()
        invariant
            i <= results.len(),
            text@ == header + report_lines_text(results@.take(i as int), *words),
        decreases results.len() - i,
    {
        let line = report_line(&results[i], words);
        text.append(line.as_str());
        proof {
            let upto = results@.take(i + 1);
            assert(upto.drop_last() == results@.take(i as int));
        }
        i += 1;
    }
    assert(results@.take(i as int) == results@);
    text
}

} // verus!
