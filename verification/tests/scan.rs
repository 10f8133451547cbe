use port_scanner::outcome::{ConnectOutcome, PortResult, PortStatus, ReadOutcome};
use port_scanner::ports::parse_ports;
use port_scanner::probe::{Probe, ProbeStep};
use port_scanner::scan::{Scan, ScanAction};
use port_scanner::summary::{count_with_status, ScanSummary};

/// A made-up host: how each port answers a connection attempt, and what it
/// sends once connected.
fn simulate(port: u16, elapsed_ms: u128) -> PortResult {
    let (outcome, sends): (ConnectOutcome, &[u8]) = match port {
        22 => (ConnectOutcome::Connected, b"SSH-2.0-Test\r\n"),
        80 => (ConnectOutcome::Connected, b"HTTP/1.1 200 OK\r\n"),
        81 => (ConnectOutcome::Refused, b""),
        9 => (ConnectOutcome::TimedOut, b""),
        p if p % 3 == 0 => (ConnectOutcome::Connected, b""),
        p if p % 3 == 1 => (ConnectOutcome::Refused, b""),
        _ => (ConnectOutcome::Failed, b""),
    };
    match Probe::new(port).on_connect(outcome, elapsed_ms) {
        ProbeStep::Done(result) => result,
        ProbeStep::ReadBanner(open) => {
            if sends.is_empty() {
                open.on_banner(ReadOutcome::TimedOut)
            } else {
                open.on_banner(ReadOutcome::Data(sends.to_vec()))
            }
        }
    }
}

/// Drives a scan to its end. Whenever the scan says to wait, the probe that
/// `pick` chooses among the running ones ends. Returns the summary and the
/// largest number of probes that ever ran at once.
fn drive(ports: Vec<u16>, limit: usize, pick: fn(usize, usize) -> usize) -> (ScanSummary, usize) {
    let mut scan = Scan::new(ports, limit);
    let mut running: Vec<u16> = Vec::new();
    let mut peak = 0;
    let mut clock: u128 = 0;
    loop {
        assert!(scan.in_flight() <= limit);
        assert_eq!(scan.in_flight(), running.len());
        match scan.next_action() {
            ScanAction::Dispatch(port) => {
                running.push(port);
                if running.len() > peak {
                    peak = running.len();
                }
            }
            ScanAction::Wait => {
                assert!(!running.is_empty());
                clock += 1;
                let port = running.remove(pick(running.len(), clock as usize));
                assert!(scan.complete(simulate(port, clock)));
            }
            ScanAction::Finish => break,
        }
    }
    assert!(scan.is_finished());
    match scan.finish("198.51.100.7".to_string(), clock) {
        Ok(summary) => (summary, peak),
        Err(_) => panic!("a finished scan must give its summary"),
    }
}

fn oldest(_running: usize, _tick: usize) -> usize {
    0
}

fn newest(running: usize, _tick: usize) -> usize {
    running - 1
}

fn scattered(running: usize, tick: usize) -> usize {
    (tick * 7 + 3) % running
}

#[test]
fn never_more_probes_run_than_the_limit_allows() {
    let ports: Vec<u16> = (1..=2000).collect();
    for limit in [1usize, 8, 512] {
        for pick in [oldest, newest, scattered] {
            let (summary, peak) = drive(ports.clone(), limit, pick);
            assert_eq!(peak, limit);
            assert_eq!(summary.scanned_ports(), 2000);
        }
    }
}

#[test]
fn a_limit_above_the_number_of_ports_lets_them_all_run() {
    let (summary, peak) = drive(vec![5, 6, 7], 512, oldest);
    assert_eq!(peak, 3);
    assert_eq!(summary.scanned_ports(), 3);
}

#[test]
fn a_scan_of_k_ports_gives_k_results_that_add_up() {
    for k in [1usize, 2, 17, 300] {
        let ports: Vec<u16> = (1..=k as u16).collect();
        let (summary, _) = drive(ports, 8, scattered);
        assert_eq!(summary.results().len(), k);
        assert_eq!(summary.scanned_ports(), k);
        assert_eq!(
            summary.open_ports() + summary.closed_ports() + summary.filtered_ports(),
            k
        );
    }
}

#[test]
fn every_port_gets_exactly_one_result() {
    let ports: Vec<u16> = (100..160).collect();
    let (summary, _) = drive(ports.clone(), 8, scattered);
    let mut seen: Vec<u16> = summary.results().iter().map(|r| r.port()).collect();
    seen.sort();
    assert_eq!(seen, ports);
}

#[test]
fn the_example_host_is_summed_up_as_expected() {
    let ports = parse_ports("9,22,80-81").unwrap();
    assert_eq!(ports, vec![9, 22, 80, 81]);
    let (summary, _) = drive(ports, 8, newest);
    assert_eq!(summary.target(), "198.51.100.7");
    assert_eq!(summary.scanned_ports(), 4);
    assert_eq!(summary.open_ports(), 2);
    assert_eq!(summary.closed_ports(), 1);
    assert_eq!(summary.filtered_ports(), 1);
    for result in summary.results() {
        match result.port() {
            22 => {
                assert_eq!(result.status(), PortStatus::Open);
                assert_eq!(result.service(), Some("SSH"));
                assert_eq!(result.banner(), Some("SSH-2.0-Test"));
            }
            80 => {
                assert_eq!(result.status(), PortStatus::Open);
                assert_eq!(result.service(), Some("HTTP"));
                assert_eq!(result.banner(), Some("HTTP/1.1 200 OK"));
            }
            81 => {
                assert_eq!(result.status(), PortStatus::Closed);
                assert_eq!(result.service(), None);
                assert_eq!(result.banner(), None);
            }
            9 => {
                assert_eq!(result.status(), PortStatus::Filtered);
                assert_eq!(result.service(), None);
                assert_eq!(result.banner(), None);
            }
            other => panic!("port {} was not to be scanned", other),
        }
    }
}

#[test]
fn results_stand_in_the_order_in_which_they_came_in() {
    let mut scan = Scan::new(vec![10, 20, 30], 3);
    assert_eq!(scan.next_action(), ScanAction::Dispatch(10));
    assert_eq!(scan.next_action(), ScanAction::Dispatch(20));
    assert_eq!(scan.next_action(), ScanAction::Dispatch(30));
    assert_eq!(scan.next_action(), ScanAction::Wait);
    assert!(scan.complete(simulate(30, 1)));
    assert!(scan.complete(simulate(10, 2)));
    assert!(scan.complete(simulate(20, 3)));
    assert_eq!(scan.next_action(), ScanAction::Finish);
    let order: Vec<u16> = scan.results().iter().map(|r| r.port()).collect();
    assert_eq!(order, vec![30, 10, 20]);
    let times: Vec<u128> = scan.results().iter().map(|r| r.duration_ms()).collect();
    assert_eq!(times, vec![1, 2, 3]);
}

#[test]
fn ports_are_handed_out_in_order_as_slots_come_free() {
    let mut scan = Scan::new(vec![7, 5, 9], 1);
    assert_eq!(scan.limit(), 1);
    assert_eq!(scan.pending(), 3);
    assert_eq!(scan.next_action(), ScanAction::Dispatch(7));
    assert_eq!(scan.in_flight(), 1);
    assert_eq!(scan.pending(), 2);
    assert_eq!(scan.next_action(), ScanAction::Wait);
    assert_eq!(scan.next_action(), ScanAction::Wait);
    assert_eq!(scan.in_flight(), 1);
    assert!(scan.complete(simulate(7, 1)));
    assert_eq!(scan.in_flight(), 0);
    assert_eq!(scan.next_action(), ScanAction::Dispatch(5));
    assert!(scan.complete(simulate(5, 2)));
    assert_eq!(scan.next_action(), ScanAction::Dispatch(9));
    assert!(!scan.is_finished());
    assert!(scan.complete(simulate(9, 3)));
    assert!(scan.is_finished());
    assert_eq!(scan.next_action(), ScanAction::Finish);
    assert_eq!(scan.next_action(), ScanAction::Finish);
}

#[test]
fn a_result_for_a_port_that_is_not_running_is_dropped() {
    let mut scan = Scan::new(vec![1, 2], 1);
    assert!(!scan.complete(simulate(1, 1)));
    assert_eq!(scan.next_action(), ScanAction::Dispatch(1));
    assert!(!scan.complete(simulate(2, 1)));
    assert!(!scan.complete(simulate(3, 1)));
    assert_eq!(scan.results().len(), 0);
    assert_eq!(scan.in_flight(), 1);
    assert!(scan.complete(simulate(1, 1)));
    assert!(!scan.complete(simulate(1, 2)));
    assert_eq!(scan.results().len(), 1);
}

#[test]
fn a_probe_that_breaks_off_leaves_its_port_without_result() {
    let mut scan = Scan::new(vec![21, 22, 23], 2);
    assert_eq!(scan.next_action(), ScanAction::Dispatch(21));
    assert_eq!(scan.next_action(), ScanAction::Dispatch(22));
    assert!(!scan.fail(23));
    assert!(scan.fail(21));
    assert!(!scan.fail(21));
    assert_eq!(scan.in_flight(), 1);
    assert_eq!(scan.next_action(), ScanAction::Dispatch(23));
    assert!(scan.complete(simulate(22, 5)));
    assert!(scan.complete(simulate(23, 6)));
    assert_eq!(scan.lost(), &vec![21]);
    let summary = scan.finish("host".to_string(), 6).unwrap();
    assert_eq!(summary.scanned_ports(), 2);
    let ports: Vec<u16> = summary.results().iter().map(|r| r.port()).collect();
    assert_eq!(ports, vec![22, 23]);
}

#[test]
fn there_is_no_summary_before_the_end() {
    let mut scan = Scan::new(vec![22, 80], 2);
    scan = match scan.finish("host".to_string(), 0) {
        Ok(_) => panic!("nothing was scanned yet"),
        Err(scan) => scan,
    };
    assert_eq!(scan.next_action(), ScanAction::Dispatch(22));
    assert_eq!(scan.next_action(), ScanAction::Dispatch(80));
    assert!(scan.complete(simulate(22, 1)));
    scan = match scan.finish("host".to_string(), 1) {
        Ok(_) => panic!("a probe is still running"),
        Err(scan) => scan,
    };
    assert_eq!(scan.results().len(), 1);
    assert_eq!(scan.in_flight(), 1);
    assert!(scan.complete(simulate(80, 2)));
    let summary = scan.finish("host".to_string(), 2).unwrap();
    assert_eq!(summary.total_time_ms(), 2);
    assert_eq!(summary.scanned_ports(), 2);
}

#[test]
fn a_scan_of_nothing_is_finished_at_once() {
    let mut scan = Scan::new(Vec::new(), 8);
    assert!(scan.is_finished());
    assert_eq!(scan.next_action(), ScanAction::Finish);
    let summary = scan.finish("host".to_string(), 0).unwrap();
    assert_eq!(summary.scanned_ports(), 0);
    assert_eq!(summary.open_ports(), 0);
    assert_eq!(summary.closed_ports(), 0);
    assert_eq!(summary.filtered_ports(), 0);
}

#[test]
fn a_limit_of_zero_lets_nothing_start() {
    let mut scan = Scan::new(vec![22], 0);
    assert_eq!(scan.next_action(), ScanAction::Wait);
    assert_eq!(scan.in_flight(), 0);
    assert_eq!(scan.pending(), 1);
    assert!(!scan.is_finished());
}

#[test]
fn a_port_named_twice_is_probed_twice() {
    let mut scan = Scan::new(vec![80, 80], 2);
    assert_eq!(scan.next_action(), ScanAction::Dispatch(80));
    assert_eq!(scan.next_action(), ScanAction::Dispatch(80));
    assert!(scan.complete(simulate(80, 1)));
    assert_eq!(scan.in_flight(), 1);
    assert!(scan.complete(simulate(80, 2)));
    assert!(!scan.complete(simulate(80, 3)));
    assert_eq!(scan.finish("host".to_string(), 3).unwrap().scanned_ports(), 2);
}

#[test]
fn a_summary_counts_each_status() {
    let results = vec![
        simulate(22, 1),
        simulate(81, 2),
        simulate(9, 3),
        simulate(80, 4),
        simulate(5, 5),
    ];
    assert_eq!(count_with_status(&results, PortStatus::Open), 2);
    assert_eq!(count_with_status(&results, PortStatus::Closed), 1);
    assert_eq!(count_with_status(&results, PortStatus::Filtered), 2);
    let summary = ScanSummary::new("10.0.0.1".to_string(), results, 5);
    assert_eq!(summary.target(), "10.0.0.1");
    assert_eq!(summary.scanned_ports(), 5);
    assert_eq!(summary.open_ports(), 2);
    assert_eq!(summary.closed_ports(), 1);
    assert_eq!(summary.filtered_ports(), 2);
    assert_eq!(summary.total_time_ms(), 5);
    assert_eq!(summary.results().len(), 5);
}
