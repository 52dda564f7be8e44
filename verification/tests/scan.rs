use portscan::coordinator::{run_scan, split_elapsed};
use portscan::partition::{chunk_ports, partition, Chunk};
use portscan::ports::{banner_protocol, BannerProtocol};
use portscan::probe::{assemble_chunk_results, make_result, PortResult, ProbeOutcome};
use portscan::report::{assemble_report, sort_results};
use portscan::request::{HostAddr, ScanError, ScanRequest};

fn localhost() -> HostAddr {
    HostAddr { o0: 127, o1: 0, o2: 0, o3: 1 }
}

fn closed() -> ProbeOutcome {
    ProbeOutcome { is_open: false, banner: None }
}

fn open_with(banner: Option<&str>) -> ProbeOutcome {
    ProbeOutcome { is_open: true, banner: banner.map(|s| s.to_string()) }
}

#[test]
fn validation_rejects_inverted_range() {
    let r = ScanRequest::new(localhost(), 5, 3, false);
    assert!(matches!(r, Err(ScanError::EmptyRange)));
    let r = ScanRequest::with_worker_count(localhost(), 1000, 1, true, 4);
    assert!(matches!(r, Err(ScanError::EmptyRange)));
}

#[test]
fn validation_accepts_valid_range() {
    let req = ScanRequest::new(localhost(), 1, 1000, true).unwrap();
    assert_eq!(req.start_port, 1);
    assert_eq!(req.end_port, 1000);
    assert!(req.banner_enabled);
    assert_eq!(req.worker_count, 5);
    assert_eq!(req.host, localhost());
    let single = ScanRequest::new(localhost(), 80, 80, false).unwrap();
    assert_eq!(single.start_port, 80);
    assert_eq!(single.end_port, 80);
}

fn assert_cover(chunks: &[Chunk], start: u16, end: u16) {
    assert!(!chunks.is_empty());
    assert_eq!(chunks[0].start, start);
    assert_eq!(chunks[chunks.len() - 1].end, end);
    for c in chunks {
        assert!(c.start <= c.end);
    }
    for w in chunks.windows(2) {
        assert_eq!(w[1].start, w[0].end + 1);
    }
}

#[test]
fn partition_exact_chunks() {
    let chunks = partition(1, 10, 3);
    assert_eq!(chunks.len(), 3);
    assert_eq!((chunks[0].start, chunks[0].end), (1, 3));
    assert_eq!((chunks[1].start, chunks[1].end), (4, 6));
    assert_eq!((chunks[2].start, chunks[2].end), (7, 10));
}

#[test]
fn partition_remainder_goes_to_last_chunk() {
    for workers in 1..=8u16 {
        for end in 1..=23u16 {
            let chunks = partition(1, end, workers);
            assert_cover(&chunks, 1, end);
        }
    }
}

#[test]
fn partition_range_shorter_than_workers() {
    let chunks = partition(1, 3, 5);
    assert_eq!(chunks.len(), 3);
    assert_cover(&chunks, 1, 3);
}

#[test]
fn partition_full_port_space() {
    let chunks = partition(0, 65535, 5);
    assert_eq!(chunks.len(), 5);
    assert_cover(&chunks, 0, 65535);
    assert_eq!(chunks[0].end - chunks[0].start + 1, 13107);
}

#[test]
fn chunk_ports_are_ascending() {
    let ports = chunk_ports(&Chunk { start: 5, end: 9 });
    assert_eq!(ports, vec![5, 6, 7, 8, 9]);
    let one = chunk_ports(&Chunk { start: 80, end: 80 });
    assert_eq!(one, vec![80]);
}

#[test]
fn banner_protocol_dispatch() {
    assert_eq!(banner_protocol(80, true, true), BannerProtocol::Http);
    assert_eq!(banner_protocol(443, true, true), BannerProtocol::Https);
    assert_eq!(banner_protocol(22, true, true), BannerProtocol::Ssh);
    assert_eq!(banner_protocol(8080, true, true), BannerProtocol::NoFetch);
    assert_eq!(banner_protocol(80, false, true), BannerProtocol::NoFetch);
    assert_eq!(banner_protocol(80, true, false), BannerProtocol::NoFetch);
    assert_eq!(banner_protocol(22, false, false), BannerProtocol::NoFetch);
}

#[test]
fn closed_port_never_carries_a_banner() {
    // even if a stray fetch produced text, a closed port reports no banner
    let stray = ProbeOutcome { is_open: false, banner: Some("junk".to_string()) };
    let r = make_result(80, stray, true);
    assert!(!r.is_open);
    assert_eq!(r.banner, None);
}

#[test]
fn banner_gate_on_make_result() {
    let r = make_result(443, open_with(Some("tls hello")), true);
    assert!(r.is_open);
    assert_eq!(r.banner, Some("tls hello".to_string()));

    let r = make_result(443, open_with(Some("tls hello")), false);
    assert!(r.is_open);
    assert_eq!(r.banner, None);

    let r = make_result(8080, open_with(Some("whatever")), true);
    assert!(r.is_open);
    assert_eq!(r.banner, None);

    let r = make_result(22, open_with(None), true);
    assert!(r.is_open);
    assert_eq!(r.banner, None);
}

#[test]
fn chunk_results_cover_the_chunk_in_order() {
    let chunk = Chunk { start: 21, end: 23 };
    let outcomes = vec![closed(), open_with(None), open_with(Some("x"))];
    let results = assemble_chunk_results(&chunk, outcomes, false);
    assert_eq!(results.len(), 3);
    assert_eq!(results[0].port, 21);
    assert!(!results[0].is_open);
    assert_eq!(results[1].port, 22);
    assert!(results[1].is_open);
    assert_eq!(results[2].port, 23);
    assert!(results[2].is_open);
    // banner fetching disabled: nothing may carry a banner, port 22 included
    assert!(results.iter().all(|r| r.banner.is_none()));
}

fn plain(port: u16, is_open: bool) -> PortResult {
    PortResult { port, is_open, banner: None }
}

#[test]
fn sort_orders_by_port() {
    let input = vec![plain(9, true), plain(2, false), plain(7, true), plain(2, true)];
    let sorted = sort_results(input);
    let ports: Vec<u16> = sorted.iter().map(|r| r.port).collect();
    assert_eq!(ports, vec![2, 2, 7, 9]);
}

#[test]
fn report_order_is_independent_of_worker_completion_order() {
    // chunks handed back out of submission order
    let late_chunk = vec![plain(7, true), plain(8, false)];
    let early_chunk = vec![plain(1, false), plain(2, true)];
    let report = assemble_report(vec![late_chunk, early_chunk], 42);
    let ports: Vec<u16> = report.results.iter().map(|r| r.port).collect();
    assert_eq!(ports, vec![1, 2, 7, 8]);
    assert_eq!(report.elapsed_millis, 42);
    // each result kept the open flag of the port it was recorded for
    let open_flags: Vec<bool> = report.results.iter().map(|r| r.is_open).collect();
    assert_eq!(open_flags, vec![false, true, true, false]);
}

#[test]
fn scan_scenario_only_port_seven_listens() {
    // scanning 127.0.0.1 ports [1, 10] against a harness listening on port 7
    let req = ScanRequest::new(localhost(), 1, 10, false).unwrap();
    let outcomes: Vec<ProbeOutcome> =
        (1..=10u16).map(|p| if p == 7 { open_with(None) } else { closed() }).collect();
    let report = run_scan(&req, outcomes, 5);
    assert_eq!(report.results.len(), 10);
    for (i, r) in report.results.iter().enumerate() {
        assert_eq!(r.port, (i + 1) as u16);
        assert_eq!(r.is_open, r.port == 7);
        assert_eq!(r.banner, None);
    }
    assert_eq!(report.elapsed_millis, 5);
}

#[test]
fn scan_scenario_http_stub_banner() {
    // an HTTP stub on port 80, banner fetching enabled
    let body = "<html>stub</html>";
    let req = ScanRequest::new(localhost(), 78, 82, true).unwrap();
    let outcomes: Vec<ProbeOutcome> =
        (78..=82u16).map(|p| if p == 80 { open_with(Some(body)) } else { closed() }).collect();
    let report = run_scan(&req, outcomes, 1);
    assert_eq!(report.results.len(), 5);
    let r80 = &report.results[2];
    assert_eq!(r80.port, 80);
    assert!(r80.is_open);
    assert_eq!(r80.banner, Some(body.to_string()));
    for r in &report.results {
        if r.port != 80 {
            assert!(!r.is_open);
            assert_eq!(r.banner, None);
        }
    }
}

#[test]
fn coverage_holds_for_every_worker_count() {
    for workers in 1..=8u16 {
        let req = ScanRequest::with_worker_count(localhost(), 10, 20, false, workers).unwrap();
        let outcomes: Vec<ProbeOutcome> = (10..=20u16).map(|_| closed()).collect();
        let report = run_scan(&req, outcomes, 0);
        assert_eq!(report.results.len(), 11);
        for (i, r) in report.results.iter().enumerate() {
            assert_eq!(r.port, 10 + i as u16);
            assert!(!r.is_open);
        }
    }
}

#[test]
fn scan_scenario_ssh_identification_line() {
    let req = ScanRequest::new(localhost(), 22, 22, true).unwrap();
    let outcomes = vec![open_with(Some("SSH-2.0-OpenSSH_9.6"))];
    let report = run_scan(&req, outcomes, 3);
    assert_eq!(report.results.len(), 1);
    assert_eq!(report.results[0].port, 22);
    assert!(report.results[0].is_open);
    assert_eq!(report.results[0].banner, Some("SSH-2.0-OpenSSH_9.6".to_string()));
}

#[test]
fn elapsed_parts_match_display_convention() {
    assert_eq!(split_elapsed(125, 125250), (2, 5, 125250));
    assert_eq!(split_elapsed(0, 0), (0, 0, 0));
    assert_eq!(split_elapsed(59, 59999), (0, 59, 59999));
}
