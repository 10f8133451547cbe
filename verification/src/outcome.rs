//! What a probe observes and what it reports: the ways a connection attempt
//! and a banner read can end, the three-way status of a port, and the result
//! recorded for it.

use crate::service::{classify, detect_service, string_of, text_of};
use vstd::prelude::*;

verus! {

/// How the attempt to connect to a port ended.
#[derive(Clone, Copy, Debug, PartialEq, Eq, Structural)]
pub enum ConnectOutcome {
    /// The connection was established before the deadline.
    Connected,
    /// The peer actively refused the connection before the deadline.
    Refused,
    /// The attempt failed before the deadline for any other reason, such as an
    /// unreachable host or network.
    Failed,
    /// The deadline passed first.
    TimedOut,
}

/// How the attempt to read a banner from an open connection ended.
#[derive(Debug)]
pub enum ReadOutcome {
    /// The read returned these bytes before the deadline; none at all when the
    /// peer closed the connection without sending.
    Data(Vec<u8>),
    /// The read failed.
    Failed,
    /// The deadline passed first.
    TimedOut,
}

/// The state of a port as a probe found it.
#[derive(Clone, Copy, Debug, PartialEq, Eq, Structural)]
pub enum PortStatus {
    /// A connection was established.
    Open,
    /// The peer refused the connection.
    Closed,
    /// Anything else: no answer in time, or a failure other than a refusal.
    Filtered,
}

/// The status that a connection attempt's outcome stands for. Only an
/// explicit refusal counts as closed; every other failure is filtered.
pub open spec fn status_for(outcome: ConnectOutcome) -> PortStatus {
    match outcome {
        ConnectOutcome::Connected => PortStatus::Open,
        ConnectOutcome::Refused => PortStatus::Closed,
        ConnectOutcome::Failed => PortStatus::Filtered,
        ConnectOutcome::TimedOut => PortStatus::Filtered,
    }
}

/// The status that a connection attempt's outcome stands for.
pub fn status_of(outcome: ConnectOutcome) -> (status: PortStatus)
    ensures
        status == status_for(outcome),
{
    match outcome {
        ConnectOutcome::Connected => PortStatus::Open,
        ConnectOutcome::Refused => PortStatus::Closed,
        ConnectOutcome::Failed => PortStatus::Filtered,
        ConnectOutcome::TimedOut => PortStatus::Filtered,
    }
}

/// What a `PortResult` holds, as plain values.
pub struct PortReport {
    pub port: u16,
    pub status: PortStatus,
    pub banner: Option<Seq<char>>,
    pub service: Option<Seq<char>>,
    pub duration_ms: u128,
}

impl PortReport {
    /// Whether the report hangs together: only an open port has a banner or a
    /// service, and the service of an open port is the one its port and banner
    /// classify to.
    pub open spec fn consistent(self) -> bool {
        match self.status {
            PortStatus::Open => self.service == classify(self.port, self.banner),
            _ => self.banner is None && self.service is None,
        }
    }
}

/// The report for a port whose connection attempt did not succeed.
pub open spec fn settled_report(port: u16, outcome: ConnectOutcome, elapsed_ms: u128) -> PortReport {
    PortReport {
        port,
        status: status_for(outcome),
        banner: None,
        service: None,
        duration_ms: elapsed_ms,
    }
}

/// The report for a port that accepted the connection and sent `banner`, if
/// anything.
pub open spec fn open_report(port: u16, banner: Option<Seq<char>>, elapsed_ms: u128) -> PortReport {
    PortReport {
        port,
        status: PortStatus::Open,
        banner,
        service: classify(port, banner),
        duration_ms: elapsed_ms,
    }
}

/// Whether two optional strings hold the same text, or both none.
pub fn same_text(a: &Option<String>, b: &Option<String>) -> (same: bool)
    ensures
        same == (string_of(*a) == string_of(*b)),
{
    match (a, b) {
        (Some(x), Some(y)) => *x == *y,
        (None, None) => true,
        _ => false,
    }
}

/// The result of probing one port. It is made once, by the probe, and cannot be
/// changed afterwards.
#[derive(Debug)]
pub struct PortResult {
    port: u16,
    status: PortStatus,
    banner: Option<String>,
    service: Option<String>,
    duration_ms: u128,
}

impl View for PortResult {
    type V = PortReport;

    closed spec fn view(&self) -> PortReport {
        PortReport {
            port: self.port,
            status: self.status,
            banner: match self.banner {
                Some(b) => Some(b@),
                None => None,
            },
            service: match self.service {
                Some(s) => Some(s@),
                None => None,
            },
            duration_ms: self.duration_ms,
        }
    }
}

impl PortResult {
    #[verifier::type_invariant]
    closed spec fn inv(self) -> bool {
        self@.consistent()
    }

    /// The result for a port whose connection attempt did not succeed.
    pub(crate) fn settled(port: u16, outcome: ConnectOutcome, elapsed_ms: u128) -> (result:
        PortResult)
        requires
            outcome != ConnectOutcome::Connected,
        ensures
            result@ == settled_report(port, outcome, elapsed_ms),
    {
        PortResult {
            port,
            status: status_of(outcome),
            banner: None,
            service: None,
            duration_ms: elapsed_ms,
        }
    }

    /// The result for a port that accepted the connection and sent `banner`, if
    /// anything.
    pub(crate) fn opened(port: u16, banner: Option<String>, elapsed_ms: u128) -> (result:
        PortResult)
        ensures
            result@ == open_report(port, string_of(banner), elapsed_ms),
    {
        let service = match &banner {
            Some(text) => detect_service(port, Some(text.as_str())),
            None => detect_service(port, None),
        };
        PortResult { port, status: PortStatus::Open, banner, service, duration_ms: elapsed_ms }
    }

    /// The result that holds these values, provided they hang together: a port
    /// that is not open has neither banner nor service, and the service of an
    /// open port is the one that its port and banner classify to. Values that do
    /// not hang together make no result.
    pub fn from_parts(
        port: u16,
        status: PortStatus,
        banner: Option<String>,
        service: Option<String>,
        duration_ms: u128,
    ) -> (result: Option<PortResult>)
        ensures
            result is Some <==> (PortReport {
                port,
                status,
                banner: string_of(banner),
                service: string_of(service),
                duration_ms,
            }).consistent(),
            result matches Some(r) ==> r@ == (PortReport {
                port,
                status,
                banner: string_of(banner),
                service: string_of(service),
                duration_ms,
            }),
    {
        let fits = match status {
            PortStatus::Open => {
                let expected = match &banner {
                    Some(text) => detect_service(port, Some(text.as_str())),
                    None => detect_service(port, None),
                };
                same_text(&expected, &service)
            },
            _ => banner.is_none() && service.is_none(),
        };
        if fits {
            Some(PortResult { port, status, banner, service, duration_ms })
        } else {
            None
        }
    }

    /// The port that was probed.
    pub fn port(&self) -> (port: u16)
        ensures
            port == self@.port,
    {
        self.port
    }

    /// What the probe found. Every result hangs together, whatever its status.
    pub fn status(&self) -> (status: PortStatus)
        ensures
            status == self@.status,
            self@.consistent(),
    {
        proof {
            use_type_invariant(self);
        }
        self.status
    }

    /// The banner that the port sent, if it was open and sent one.
    pub fn banner(&self) -> (banner: Option<&str>)
        ensures
            text_of(banner) == self@.banner,
    {
        match &self.banner {
            Some(b) => Some(b.as_str()),
            None => None,
        }
    }

    /// The best guess at the service on the port, if there is one.
    pub fn service(&self) -> (service: Option<&str>)
        ensures
            text_of(service) == self@.service,
    {
        match &self.service {
            Some(s) => Some(s.as_str()),
            None => None,
        }
    }

    /// The time from the start of the scan to the end of this port's connection
    /// attempt, in milliseconds.
    pub fn duration_ms(&self) -> (ms: u128)
        ensures
            ms == self@.duration_ms,
    {
        self.duration_ms
    }
}

} // verus!
