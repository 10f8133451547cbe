//! The schedule of a scan. A `Scan` hands out the ports one by one, never
//! letting more probes run at once than its limit allows, takes the results
//! back in whatever order the probes end, and sums them up once every port is
//! accounted for. It decides; whoever drives it runs the probes.

use crate::outcome::{PortResult, PortStatus};
use crate::summary::{count_status, lemma_counts_add_up, summary_of, ScanSummary};
use vstd::multiset::Multiset;
use vstd::prelude::*;
use vstd::seq_lib::{to_multiset_build, to_multiset_len, to_multiset_remove};

verus! {

/// The ports of `results`, in order.
pub open spec fn result_ports(results: Seq<PortResult>) -> Seq<u16> {
    results.map_values(|r: PortResult| r@.port)
}

/// The state of a scan, as plain values.
pub struct ScanState {
    /// The ports to scan, in the order in which they are handed out.
    pub ports: Seq<u16>,
    /// The most probes that may run at once.
    pub limit: nat,
    /// How many of the ports have been handed out.
    pub dispatched: nat,
    /// The ports whose probes are running.
    pub in_flight: Multiset<u16>,
    /// The results, in the order in which they came in.
    pub results: Seq<PortResult>,
    /// The ports whose probes broke off without a result, in the order in
    /// which that became known.
    pub lost: Seq<u16>,
}

/// What can happen to a scan.
pub enum ScanEvent {
    /// The next port is handed out.
    Dispatch,
    /// A probe ended with this result.
    Complete(PortResult),
    /// The probe of this port broke off without a result.
    Fail(u16),
}

/// What the driver of a scan is to do next.
#[derive(Clone, Copy, Debug, PartialEq, Eq, Structural)]
pub enum ScanAction {
    /// Start the probe of this port.
    Dispatch(u16),
    /// The limit is reached, or nothing is left to start: wait for a probe to
    /// end and report it.
    Wait,
    /// Every port is accounted for: take the summary.
    Finish,
}

impl ScanState {
    /// The state before anything has happened.
    pub open spec fn initial(ports: Seq<u16>, limit: nat) -> ScanState {
        ScanState {
            ports,
            limit,
            dispatched: 0,
            in_flight: Multiset::empty(),
            results: Seq::empty(),
            lost: Seq::empty(),
        }
    }

    /// What holds of every state that a scan passes through: no more probes run
    /// than the limit allows, and the ports handed out so far are exactly those
    /// that are running, have a result or were lost.
    pub open spec fn wf(self) -> bool {
        &&& self.dispatched <= self.ports.len()
        &&& self.in_flight.len() <= self.limit
        &&& self.ports.take(self.dispatched as int).to_multiset() == self.in_flight.add(
            result_ports(self.results).to_multiset(),
        ).add(self.lost.to_multiset())
    }

    /// Whether the next port may be handed out: one is left, and a probe more
    /// stays within the limit.
    pub open spec fn can_dispatch(self) -> bool {
        self.dispatched < self.ports.len() && self.in_flight.len() < self.limit
    }

    /// Whether every port has been handed out and no probe is running.
    pub open spec fn finished(self) -> bool {
        self.dispatched == self.ports.len() && self.in_flight.len() == 0
    }

    /// The port that is handed out next.
    pub open spec fn next_port(self) -> u16
        recommends
            self.dispatched < self.ports.len(),
    {
        self.ports[self.dispatched as int]
    }

    /// What the driver is to do in this state.
    pub open spec fn action(self) -> ScanAction {
        if self.can_dispatch() {
            ScanAction::Dispatch(self.next_port())
        } else if self.finished() {
            ScanAction::Finish
        } else {
            ScanAction::Wait
        }
    }

    /// The state after the next port is handed out; the same state where none
    /// may be.
    pub open spec fn dispatch(self) -> ScanState {
        if self.can_dispatch() {
            ScanState {
                dispatched: self.dispatched + 1,
                in_flight: self.in_flight.insert(self.next_port()),
                ..self
            }
        } else {
            self
        }
    }

    /// The state after a probe ended with `result`: the result joins the others
    /// at the end and its port no longer runs. A result for a port that is not
    /// running changes nothing.
    pub open spec fn complete(self, result: PortResult) -> ScanState {
        if self.in_flight.contains(result@.port) {
            ScanState {
                in_flight: self.in_flight.remove(result@.port),
                results: self.results.push(result),
                ..self
            }
        } else {
            self
        }
    }

    /// The state after the probe of `port` broke off: the port no longer runs
    /// and gets no result. For a port that is not running nothing changes.
    pub open spec fn fail(self, port: u16) -> ScanState {
        if self.in_flight.contains(port) {
            ScanState { in_flight: self.in_flight.remove(port), lost: self.lost.push(port), ..self }
        } else {
            self
        }
    }

    /// The state after `event`.
    pub open spec fn step(self, event: ScanEvent) -> ScanState {
        match event {
            ScanEvent::Dispatch => self.dispatch(),
            ScanEvent::Complete(result) => self.complete(result),
            ScanEvent::Fail(port) => self.fail(port),
        }
    }

    /// The state after `events`, one after the other.
    pub open spec fn run(self, events: Seq<ScanEvent>) -> ScanState
        decreases events.len(),
    {
        if events.len() == 0 {
            self
        } else {
            self.run(events.drop_last()).step(events.last())
        }
    }
}

/// A scan starts out well formed.
pub proof fn lemma_initial_wf(ports: Seq<u16>, limit: nat)
    ensures
        ScanState::initial(ports, limit).wf(),
{
    let s = ScanState::initial(ports, limit);
    assert(ports.take(0) =~= Seq::<u16>::empty());
    assert(result_ports(s.results) =~= Seq::<u16>::empty());
    assert(Seq::<u16>::empty().to_multiset() =~= Multiset::<u16>::empty()) by {
        to_multiset_len(Seq::<u16>::empty());
        vstd::multiset::lemma_multiset_empty_len(Seq::<u16>::empty().to_multiset());
    }
    assert(s.in_flight.add(result_ports(s.results).to_multiset()).add(s.lost.to_multiset())
        =~= Multiset::<u16>::empty());
}

/// Handing out a port keeps a scan well formed.
pub proof fn lemma_dispatch_wf(s: ScanState)
    requires
        s.wf(),
    ensures
        s.dispatch().wf(),
{
    if s.can_dispatch() {
        let t = s.dispatch();
        let port = s.next_port();
        let before = s.ports.take(s.dispatched as int);
        assert(s.ports.take(t.dispatched as int) =~= before.push(port));
        to_multiset_build(before, port);
        assert(t.in_flight.add(result_ports(t.results).to_multiset()).add(t.lost.to_multiset())
            =~= before.to_multiset().insert(port));
    }
}

/// Taking in a result keeps a scan well formed.
pub proof fn lemma_complete_wf(s: ScanState, result: PortResult)
    requires
        s.wf(),
    ensures
        s.complete(result).wf(),
{
    let port = result@.port;
    if s.in_flight.contains(port) {
        let t = s.complete(result);
        assert(result_ports(t.results) =~= result_ports(s.results).push(port));
        to_multiset_build(result_ports(s.results), port);
        assert(t.in_flight.add(result_ports(t.results).to_multiset()).add(t.lost.to_multiset())
            =~= s.in_flight.add(result_ports(s.results).to_multiset()).add(s.lost.to_multiset()));
    }
}

/// Writing off a port keeps a scan well formed.
pub proof fn lemma_fail_wf(s: ScanState, port: u16)
    requires
        s.wf(),
    ensures
        s.fail(port).wf(),
{
    if s.in_flight.contains(port) {
        let t = s.fail(port);
        to_multiset_build(s.lost, port);
        assert(t.in_flight.add(result_ports(t.results).to_multiset()).add(t.lost.to_multiset())
            =~= s.in_flight.add(result_ports(s.results).to_multiset()).add(s.lost.to_multiset()));
    }
}

/// However a scan with the limit `limit` goes, in whatever order ports are
/// handed out, results come in and probes break off, at no moment do more than
/// `limit` probes run, and every state it passes through is well formed.
pub proof fn lemma_in_flight_within_limit(ports: Seq<u16>, limit: nat, events: Seq<ScanEvent>)
    ensures
        ScanState::initial(ports, limit).run(events).wf(),
        ScanState::initial(ports, limit).run(events).in_flight.len() <= limit,
        ScanState::initial(ports, limit).run(events).limit == limit,
        ScanState::initial(ports, limit).run(events).ports == ports,
    decreases events.len(),
{
    let start = ScanState::initial(ports, limit);
    if events.len() == 0 {
        lemma_initial_wf(ports, limit);
    } else {
        lemma_in_flight_within_limit(ports, limit, events.drop_last());
        let before = start.run(events.drop_last());
        match events.last() {
            ScanEvent::Dispatch => lemma_dispatch_wf(before),
            ScanEvent::Complete(result) => lemma_complete_wf(before, result),
            ScanEvent::Fail(port) => lemma_fail_wf(before, port),
        }
    }
}

/// When a scan has finished, every one of its ports either has a result or was
/// lost, each exactly as often as it was to be scanned. So a scan of `k` ports
/// in which no probe broke off ends with exactly `k` results.
pub proof fn lemma_finished_accounts_for_all(s: ScanState)
    requires
        s.wf(),
        s.finished(),
    ensures
        s.ports.to_multiset() == result_ports(s.results).to_multiset().add(s.lost.to_multiset()),
        s.results.len() + s.lost.len() == s.ports.len(),
        s.lost.len() == 0 ==> s.results.len() == s.ports.len(),
{
    assert(s.ports.take(s.dispatched as int) =~= s.ports);
    vstd::multiset::lemma_multiset_empty_len(s.in_flight);
    assert(s.in_flight.add(result_ports(s.results).to_multiset()).add(s.lost.to_multiset())
        =~= result_ports(s.results).to_multiset().add(s.lost.to_multiset()));
    to_multiset_len(s.ports);
    to_multiset_len(result_ports(s.results));
    to_multiset_len(s.lost);
}

/// A scan of `k` ports that has run to its end without a probe breaking off
/// has exactly `k` results, and the numbers of open, closed and filtered ports
/// among them add up to `k`.
pub proof fn lemma_scan_gives_one_result_per_port(
    ports: Seq<u16>,
    limit: nat,
    events: Seq<ScanEvent>,
)
    requires
        ScanState::initial(ports, limit).run(events).finished(),
        ScanState::initial(ports, limit).run(events).lost.len() == 0,
    ensures
        ScanState::initial(ports, limit).run(events).results.len() == ports.len(),
        ({
            let results = ScanState::initial(ports, limit).run(events).results;
            count_status(results, PortStatus::Open) + count_status(results, PortStatus::Closed)
                + count_status(results, PortStatus::Filtered) == ports.len()
        }),
{
    let end = ScanState::initial(ports, limit).run(events);
    lemma_in_flight_within_limit(ports, limit, events);
    lemma_finished_accounts_for_all(end);
    lemma_counts_add_up(end.results);
}

/// A scan whose limit is at least 1 never stalls: whenever it is neither
/// finished nor able to hand out a port, a probe is running whose end will
/// move it on.
pub proof fn lemma_wait_has_probe_running(s: ScanState)
    requires
        s.wf(),
        s.limit >= 1,
        s.action() == ScanAction::Wait,
    ensures
        s.in_flight.len() > 0,
{
}

/// A scan under way.
#[derive(Debug)]
pub struct Scan {
    ports: Vec<u16>,
    limit: usize,
    dispatched: usize,
    in_flight: Vec<u16>,
    results: Vec<PortResult>,
    lost: Vec<u16>,
}

impl View for Scan {
    type V = ScanState;

    closed spec fn view(&self) -> ScanState {
        ScanState {
            ports: self.ports@,
            limit: self.limit as nat,
            dispatched: self.dispatched as nat,
            in_flight: self.in_flight@.to_multiset(),
            results: self.results@,
            lost: self.lost@,
        }
    }
}

/// An index at which `v` holds `port`, if it holds it at all.
fn find_port(v: &Vec<u16>, port: u16) -> (at: Option<usize>)
    ensures
        match at {
            Some(i) => i < v.len() && v[i as int] == port,
            None => !v@.contains(port),
        },
{
    let mut i: usize = 0;
    while i < v.len()
        invariant
            i <= v.len(),
            forall|j: int| 0 <= j < i ==> v[j] != port,
        decreases v.len() - i,
    {
        if v[i] == port {
            return Some(i);
        }
        i += 1;
    }
    None
}

impl Scan {
    #[verifier::type_invariant]
    closed spec fn inv(self) -> bool {
        self@.wf()
    }

    /// A scan of `ports`, in this order, that lets at most `limit` probes run
    /// at once.
    pub fn new(ports: Vec<u16>, limit: usize) -> (scan: Scan)
        ensures
            scan@ == ScanState::initial(ports@, limit as nat),
            scan@.wf(),
    {
        proof {
            lemma_initial_wf(ports@, limit as nat);
            assert(Seq::<u16>::empty().to_multiset() =~= Multiset::<u16>::empty()) by {
                to_multiset_len(Seq::<u16>::empty());
                vstd::multiset::lemma_multiset_empty_len(Seq::<u16>::empty().to_multiset());
            }
        }
        Scan {
            ports,
            limit,
            dispatched: 0,
            in_flight: Vec::new(),
            results: Vec::new(),
            lost: Vec::new(),
        }
    }

    /// Takes the scan out of its place and leaves an empty one there.
    fn take(&mut self) -> (scan: Scan)
        ensures
            scan@ == old(self)@,
            scan@.wf(),
    {
        let mut scan = Scan::new(Vec::new(), 0);
        core::mem::swap(self, &mut scan);
        proof {
            use_type_invariant(&scan);
        }
        scan
    }

    /// Says what to do next. Where a port may be handed out, it is: the scan
    /// counts its probe as running from this moment on. Otherwise the scan is
    /// left as it is.
    pub fn next_action(&mut self) -> (action: ScanAction)
        ensures
            action == old(self)@.action(),
            final(self)@ == old(self)@.dispatch(),
            final(self)@.wf(),
            final(self)@.in_flight.len() <= final(self)@.limit,
    {
        let Scan { ports, limit, dispatched, mut in_flight, results, lost } = self.take();
        proof {
            to_multiset_len(in_flight@);
        }
        if dispatched < ports.len() && in_flight.len() < limit {
            let port = ports[dispatched];
            proof {
                lemma_dispatch_wf(old(self)@);
                to_multiset_build(in_flight@, port);
            }
            in_flight.push(port);
            *self = Scan { ports, limit, dispatched: dispatched + 1, in_flight, results, lost };
            ScanAction::Dispatch(port)
        } else {
            let done = dispatched == ports.len() && in_flight.len() == 0;
            *self = Scan { ports, limit, dispatched, in_flight, results, lost };
            if done {
                ScanAction::Finish
            } else {
                ScanAction::Wait
            }
        }
    }

    /// Takes in the result of a probe that ended, and says whether it was
    /// accepted. It is accepted when its port is running; it then stands last
    /// among the results. A result for any other port is dropped and changes
    /// nothing.
    pub fn complete(&mut self, result: PortResult) -> (accepted: bool)
        ensures
            accepted == old(self)@.in_flight.contains(result@.port),
            final(self)@ == old(self)@.complete(result),
            final(self)@.wf(),
    {
        let Scan { ports, limit, dispatched, mut in_flight, mut results, lost } = self.take();
        proof {
            lemma_complete_wf(old(self)@, result);
            in_flight@.to_multiset_ensures();
        }
        match find_port(&in_flight, result.port()) {
            Some(at) => {
                proof {
                    to_multiset_remove(in_flight@, at as int);
                }
                in_flight.remove(at);
                results.push(result);
                *self = Scan { ports, limit, dispatched, in_flight, results, lost };
                true
            },
            None => {
                *self = Scan { ports, limit, dispatched, in_flight, results, lost };
                false
            },
        }
    }

    /// Takes in that the probe of `port` broke off without a result, and says
    /// whether that was accepted. It is accepted when the port is running; the
    /// port is then written off and will have no result. For any other port
    /// nothing changes.
    pub fn fail(&mut self, port: u16) -> (accepted: bool)
        ensures
            accepted == old(self)@.in_flight.contains(port),
            final(self)@ == old(self)@.fail(port),
            final(self)@.wf(),
    {
        let Scan { ports, limit, dispatched, mut in_flight, results, mut lost } = self.take();
        proof {
            lemma_fail_wf(old(self)@, port);
            in_flight@.to_multiset_ensures();
        }
        match find_port(&in_flight, port) {
            Some(at) => {
                proof {
                    to_multiset_remove(in_flight@, at as int);
                }
                in_flight.remove(at);
                lost.push(port);
                *self = Scan { ports, limit, dispatched, in_flight, results, lost };
                true
            },
            None => {
                *self = Scan { ports, limit, dispatched, in_flight, results, lost };
                false
            },
        }
    }

    /// The most probes that may run at once.
    pub fn limit(&self) -> (limit: usize)
        ensures
            limit == self@.limit,
    {
        self.limit
    }

    /// How many probes are running. It is never more than the limit.
    pub fn in_flight(&self) -> (n: usize)
        ensures
            n == self@.in_flight.len(),
            n <= self@.limit,
    {
        proof {
            use_type_invariant(self);
            to_multiset_len(self.in_flight@);
        }
        self.in_flight.len()
    }

    /// How many ports are still to be handed out.
    pub fn pending(&self) -> (n: usize)
        ensures
            n == self@.ports.len() - self@.dispatched,
    {
        proof {
            use_type_invariant(self);
        }
        self.ports.len() - self.dispatched
    }

    /// The results so far, in the order in which they came in.
    pub fn results(&self) -> (results: &Vec<PortResult>)
        ensures
            results@ == self@.results,
    {
        &self.results
    }

    /// The ports written off so far.
    pub fn lost(&self) -> (lost: &Vec<u16>)
        ensures
            lost@ == self@.lost,
    {
        &self.lost
    }

    /// Whether every port is accounted for.
    pub fn is_finished(&self) -> (done: bool)
        ensures
            done == self@.finished(),
    {
        proof {
            to_multiset_len(self.in_flight@);
        }
        self.dispatched == self.ports.len() && self.in_flight.len() == 0
    }

    /// Ends the scan of `target`, which took `total_time_ms` milliseconds, with
    /// its summary. There is a summary only of a finished scan; one that is
    /// still under way is handed back as it is. The summary holds one result for
    /// each port but those written off, in the order in which they came in.
    pub fn finish(self, target: String, total_time_ms: u128) -> (r: Result<ScanSummary, Scan>)
        ensures
            match r {
                Ok(summary) => {
                    &&& self@.finished()
                    &&& summary@ == summary_of(target@, self@.results, total_time_ms)
                    &&& summary@.wf()
                    &&& summary@.scanned_ports + self@.lost.len() == self@.ports.len()
                },
                Err(scan) => !self@.finished() && scan@ == self@,
            },
    {
        proof {
            use_type_invariant(&self);
        }
        if self.is_finished() {
            proof {
                lemma_finished_accounts_for_all(self@);
            }
            Ok(ScanSummary::new(target, self.results, total_time_ms))
        } else {
            Err(self)
        }
    }
}

} // verus!
