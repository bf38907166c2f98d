use dghub::scan::{current_segment_hosts, device_probe_ports, local_ipv4, log_ip_list, probe_device};

fn strings(texts: &[&str]) -> Vec<String> {
    texts.iter().map(|text| text.to_string()).collect()
}

#[test]
fn loopback_addresses_are_not_usable() {
    assert_eq!(local_ipv4(Some([192, 168, 1, 20])), Some([192, 168, 1, 20]));
    assert_eq!(local_ipv4(Some([127, 0, 0, 1])), None);
    assert_eq!(local_ipv4(Some([127, 9, 9, 9])), None);
    assert_eq!(local_ipv4(Some([128, 0, 0, 1])), Some([128, 0, 0, 1]));
    assert_eq!(local_ipv4(None), None);
}

#[test]
fn without_an_address_only_this_machine_is_scanned() {
    assert_eq!(current_segment_hosts(None), strings(&["127.0.0.1"]));
}

#[test]
fn the_segment_of_an_address_is_scanned() {
    let hosts = current_segment_hosts(Some([192, 168, 1, 20]));
    assert_eq!(hosts.len(), 255);
    assert_eq!(hosts[0], "127.0.0.1");
    for i in 1..=254 {
        assert_eq!(hosts[i], format!("192.168.1.{i}"));
    }
}

#[test]
fn no_host_is_listed_twice() {
    let hosts = current_segment_hosts(Some([127, 0, 0, 3]));
    assert_eq!(hosts.len(), 254);
    assert_eq!(hosts[0], "127.0.0.1");
    assert_eq!(hosts[1], "127.0.0.2");
    assert_eq!(hosts[253], "127.0.0.254");
}

#[test]
fn a_device_answers_at_one_of_its_ports() {
    assert_eq!(device_probe_ports(), [80, 443]);
    assert_eq!(probe_device("h", &vec![]), None);
    assert_eq!(probe_device("h", &vec![false, false]), None);
    assert_eq!(probe_device("h", &vec![false, true]), Some("h".to_owned()));
    assert_eq!(probe_device("h", &vec![true]), Some("h".to_owned()));
}

#[test]
fn lists_of_addresses_are_logged_in_lines() {
    assert_eq!(log_ip_list("found", &vec![]), strings(&["dghub: found: none"]));
    assert_eq!(log_ip_list("found", &strings(&["a"])), strings(&["dghub: found: a"]));
    let many: Vec<String> = (0..65).map(|i| format!("h{i}")).collect();
    let lines = log_ip_list("scan ips", &many);
    assert_eq!(lines.len(), 3);
    assert_eq!(lines[0], format!("dghub: scan ips: {}", many[..32].join(", ")));
    assert_eq!(lines[1], format!("dghub: scan ips: {}", many[32..64].join(", ")));
    assert_eq!(lines[2], "dghub: scan ips: h64");
    assert_eq!(log_ip_list("x", &many[..64].to_vec()).len(), 2);
}
