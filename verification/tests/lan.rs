use dghub::lan::{LanScan, ScanAction, ScanEvent};
use dghub::scan::current_segment_hosts;

fn names(n: usize) -> Vec<String> {
    (0..n).map(|i| format!("h{i}")).collect()
}

#[test]
fn devices_are_probed_in_batches() {
    let mut scan = LanScan::new(names(70));
    let mut probed = Vec::new();
    let mut sizes = Vec::new();
    let mut action = scan.step(ScanEvent::Started);
    while let ScanAction::ProbeDevices(hosts) = action {
        sizes.push(hosts.len());
        probed.extend(hosts);
        action = scan.step(ScanEvent::DevicesProbed(vec![]));
    }
    assert_eq!(sizes, vec![32, 32, 6]);
    assert_eq!(probed, names(70));
    assert!(matches!(action, ScanAction::ProbeEndpoints(hosts, 8000) if hosts.len() == 64));
}

#[test]
fn devices_that_answer_come_first() {
    let mut scan = LanScan::new(names(3));
    assert!(matches!(scan.step(ScanEvent::Started), ScanAction::ProbeDevices(_)));
    assert!(scan.hosts().is_empty());
    let found = vec!["h2".to_owned(), "h1".to_owned()];
    match scan.step(ScanEvent::DevicesProbed(found.clone())) {
        ScanAction::ProbeEndpoints(hosts, port) => {
            assert_eq!(hosts, vec!["h2", "h1", "h0"]);
            assert_eq!(port, 8000);
        }
        action => panic!("{action:?}"),
    }
    assert_eq!(scan.devices(), &found);
    assert_eq!(scan.hosts(), &vec!["h2", "h1", "h0"]);
}

#[test]
fn all_endpoints_are_probed_when_none_answers() {
    let candidates = current_segment_hosts(Some([10, 1, 2, 3]));
    let mut scan = LanScan::new(candidates.clone());
    let mut endpoints = Vec::new();
    let mut action = scan.step(ScanEvent::Started);
    loop {
        action = match action {
            ScanAction::ProbeDevices(_) => scan.step(ScanEvent::DevicesProbed(vec![])),
            ScanAction::ProbeEndpoints(hosts, port) => {
                assert!(hosts.len() <= 64);
                endpoints.extend(hosts.into_iter().map(|host| (host, port)));
                scan.step(ScanEvent::EndpointsProbed(None))
            }
            ScanAction::NotFound => break,
            action => panic!("{action:?}"),
        };
    }
    let mut expected = Vec::new();
    for port in 8000..=8003u16 {
        for host in &candidates {
            expected.push((host.clone(), port));
        }
    }
    assert_eq!(endpoints, expected);
    assert!(matches!(scan.step(ScanEvent::EndpointsProbed(None)), ScanAction::Ignore));
}

#[test]
fn the_first_answer_ends_the_scan() {
    let mut scan = LanScan::new(names(2));
    scan.step(ScanEvent::Started);
    scan.step(ScanEvent::DevicesProbed(vec![]));
    let action = scan.step(ScanEvent::EndpointsProbed(None));
    assert!(matches!(action, ScanAction::ProbeEndpoints(_, 8001)));
    match scan.step(ScanEvent::EndpointsProbed(Some("h1".to_owned()))) {
        ScanAction::Found(host, port) => {
            assert_eq!(host, "h1");
            assert_eq!(port, 8001);
        }
        action => panic!("{action:?}"),
    }
    assert!(matches!(scan.step(ScanEvent::Started), ScanAction::Ignore));
}

#[test]
fn an_empty_scan_finds_nothing() {
    let mut scan = LanScan::new(vec![]);
    assert!(matches!(scan.step(ScanEvent::Started), ScanAction::NotFound));
}

#[test]
fn events_out_of_place_are_ignored() {
    let mut scan = LanScan::new(names(1));
    assert!(matches!(scan.step(ScanEvent::DevicesProbed(names(1))), ScanAction::Ignore));
    assert!(matches!(scan.step(ScanEvent::EndpointsProbed(None)), ScanAction::Ignore));
    scan.step(ScanEvent::Started);
    let found = Some("h0".to_owned());
    assert!(matches!(scan.step(ScanEvent::EndpointsProbed(found)), ScanAction::Ignore));
    assert!(scan.devices().is_empty());
}

fn scanned(candidates: Vec<String>, hubs: &[(&str, u16)]) -> Option<(String, u16)> {
    let mut scan = LanScan::new(candidates);
    let mut action = scan.step(ScanEvent::Started);
    loop {
        action = match action {
            ScanAction::ProbeDevices(_) => scan.step(ScanEvent::DevicesProbed(vec![])),
            ScanAction::ProbeEndpoints(hosts, port) => {
                let answer = hosts.into_iter().find(|host| hubs.contains(&(host.as_str(), port)));
                scan.step(ScanEvent::EndpointsProbed(answer))
            }
            ScanAction::Found(host, port) => return Some((host, port)),
            ScanAction::NotFound => return None,
            ScanAction::Ignore => panic!("out of step"),
        };
    }
}

#[test]
fn the_hub_at_the_lowest_port_is_found() {
    let hubs = [("h1", 8003), ("h99", 8001), ("h5", 8002)];
    assert_eq!(scanned(names(100), &hubs), Some(("h99".to_owned(), 8001)));
    assert_eq!(scanned(names(90), &hubs), Some(("h5".to_owned(), 8002)));
    assert_eq!(scanned(names(2), &hubs), Some(("h1".to_owned(), 8003)));
}

#[test]
fn a_hub_is_missed_only_where_it_is_not_looked_for() {
    assert_eq!(scanned(names(100), &[("h1", 8004), ("h100", 8000)]), None);
    for port in 8000..=8003 {
        assert_eq!(scanned(names(70), &[("h69", port)]), Some(("h69".to_owned(), port)));
    }
}

#[test]
fn true_answers_of_devices_name_the_candidates_that_are_up() {
    let up = ["h3", "h40", "h41", "h69", "x"];
    let mut scan = LanScan::new(names(70));
    let mut action = scan.step(ScanEvent::Started);
    while let ScanAction::ProbeDevices(hosts) = action {
        let answers = hosts.into_iter().rev().filter(|host| up.contains(&host.as_str())).collect();
        action = scan.step(ScanEvent::DevicesProbed(answers));
    }
    assert_eq!(scan.devices(), &vec!["h3", "h41", "h40", "h69"]);
    let mut hosts = scan.hosts().clone();
    assert_eq!(hosts.len(), 70);
    assert_eq!(hosts[..4], ["h3", "h41", "h40", "h69"]);
    hosts.sort();
    let mut candidates = names(70);
    candidates.sort();
    assert_eq!(hosts, candidates);
}
