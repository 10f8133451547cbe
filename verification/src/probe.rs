//! The probe of one port: a connection attempt under the primary deadline,
//! then, only where it succeeded, a banner read under a deadline of its own,
//! then the result. The two steps are two types, so that they can only be
//! taken in this order; whoever drives the probe does the network part and
//! reports how it ended.

use crate::banner::{banner_text, grab_banner};
use crate::outcome::{open_report, settled_report, ConnectOutcome, PortResult, ReadOutcome};
use vstd::prelude::*;

verus! {

/// A probe whose connection attempt is under way.
#[derive(Debug)]
pub struct Probe {
    port: u16,
}

/// A probe that found its port open and waits for the banner read to end.
#[derive(Debug)]
pub struct OpenProbe {
    port: u16,
    elapsed_ms: u128,
}

/// What a probe does after its connection attempt.
#[derive(Debug)]
pub enum ProbeStep {
    /// The port is open: read a banner, then hand the outcome to the probe.
    ReadBanner(OpenProbe),
    /// The port is not open: this is its result.
    Done(PortResult),
}

impl Probe {
    /// The port being probed.
    pub closed spec fn target(self) -> u16 {
        self.port
    }

    /// A probe of `port`.
    pub fn new(port: u16) -> (probe: Probe)
        ensures
            probe.target() == port,
    {
        Probe { port }
    }

    /// The port being probed.
    pub fn port(&self) -> (port: u16)
        ensures
            port == self.target(),
    {
        self.port
    }

    /// Takes in how the connection attempt ended, `elapsed_ms` milliseconds
    /// after the scan began. A connection that was made leads on to the banner
    /// read. Any other outcome ends the probe: a refusal as closed, everything
    /// else as filtered, in both cases without banner or service.
    pub fn on_connect(self, outcome: ConnectOutcome, elapsed_ms: u128) -> (step: ProbeStep)
        ensures
            match step {
                ProbeStep::ReadBanner(open) => {
                    &&& outcome == ConnectOutcome::Connected
                    &&& open.target() == self.target()
                    &&& open.elapsed() == elapsed_ms
                },
                ProbeStep::Done(result) => {
                    &&& outcome != ConnectOutcome::Connected
                    &&& result@ == settled_report(self.target(), outcome, elapsed_ms)
                },
            },
    {
        match outcome {
            ConnectOutcome::Connected => ProbeStep::ReadBanner(
                OpenProbe { port: self.port, elapsed_ms },
            ),
            _ => ProbeStep::Done(PortResult::settled(self.port, outcome, elapsed_ms)),
        }
    }
}

impl OpenProbe {
    /// The port being probed.
    pub closed spec fn target(self) -> u16 {
        self.port
    }

    /// The time from the start of the scan to the moment the connection was
    /// made, in milliseconds.
    pub closed spec fn elapsed(self) -> u128 {
        self.elapsed_ms
    }

    /// The port being probed.
    pub fn port(&self) -> (port: u16)
        ensures
            port == self.target(),
    {
        self.port
    }

    /// Takes in how the banner read ended and gives the result: the port is
    /// open whatever became of the read, the banner is what the read amounts
    /// to, and the service is classified from the port and that banner. The
    /// time recorded is the one at which the connection was made.
    pub fn on_banner(self, read: ReadOutcome) -> (result: PortResult)
        ensures
            result@ == open_report(self.target(), banner_text(read), self.elapsed()),
    {
        PortResult::opened(self.port, grab_banner(&read), self.elapsed_ms)
    }
}

} // verus!
