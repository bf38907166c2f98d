use dghub::hub::{
    connection_status, drain_events, handle_from_session, release, request_reconnect,
    spawn_with_scan, start_from_config, update_session_endpoint, DghubEvent, Endpoint, Hub, Reconnect, Start,
    Status,
};
use dghub::mapping::{Config, GradeSetting};

fn config(enable: bool, token: &str) -> Config {
    let setting = |strength: u32| GradeSetting {
        enable: true,
        strength,
        duration: "1.0".to_owned(),
        preset: String::new(),
    };
    Config {
        enable,
        host: "10.0.0.9".to_owned(),
        port: 8765,
        token: token.to_owned(),
        use_phira_config: false,
        channel: "both".to_owned(),
        throttle_ms: 80,
        throttle_miss: false,
        perfect: setting(10),
        good: setting(20),
        bad: setting(35),
        miss: setting(60),
    }
}

fn opened(sender: u32) -> Hub<u32> {
    let mut hub = Hub::new();
    let endpoint = Endpoint { host: "old".to_owned(), port: 1, token: None };
    let task = spawn_with_scan(&mut hub, endpoint, sender, true, &config(true, ""));
    assert_eq!(task.endpoint.host, "old");
    assert_eq!(task.mapping.miss.delta, 60);
    assert!(task.scan_on_failure);
    hub
}

#[test]
fn events_are_taken_in_order_and_once() {
    let mut hub: Hub<u32> = Hub::new();
    assert!(drain_events(&mut hub).is_empty());
    hub.push_event(DghubEvent::Scanning);
    hub.push_event(DghubEvent::Connected { host: "h".to_owned(), port: 8001 });
    hub.push_event(DghubEvent::Disconnected("bye".to_owned()));
    hub.push_event(DghubEvent::ScanFailed);
    let events = drain_events(&mut hub);
    assert_eq!(events.len(), 4);
    assert!(matches!(&events[0], DghubEvent::Scanning));
    assert!(matches!(&events[1], DghubEvent::Connected { host, port: 8001 } if host == "h"));
    assert!(matches!(&events[2], DghubEvent::Disconnected(reason) if reason == "bye"));
    assert!(matches!(&events[3], DghubEvent::ScanFailed));
    assert!(drain_events(&mut hub).is_empty());
    hub.push_event(DghubEvent::ScanFailed);
    assert_eq!(drain_events(&mut hub).len(), 1);
}

#[test]
fn the_status_by_its_number() {
    let mut hub: Hub<u32> = Hub::new();
    assert_eq!(connection_status(&hub), 0);
    hub.status = Status::Connecting;
    assert_eq!(connection_status(&hub), 1);
    hub.status = Status::Connected;
    assert_eq!(connection_status(&hub), 2);
}

#[test]
fn a_session_is_running_unless_idle() {
    let mut hub = opened(7);
    assert_eq!(connection_status(&hub), 1);
    assert_eq!(handle_from_session(&hub), Some(&7));
    hub.status = Status::Connected;
    assert_eq!(handle_from_session(&hub), Some(&7));
    hub.status = Status::Idle;
    assert_eq!(handle_from_session(&hub), None);
    let mut none: Hub<u32> = Hub::new();
    none.status = Status::Connected;
    assert_eq!(handle_from_session(&none), None);
}

#[test]
fn a_session_is_moved_with_its_token() {
    let mut hub: Hub<u32> = Hub::new();
    update_session_endpoint(&mut hub, "x", 5);
    assert!(hub.session.is_none());
    let endpoint = Endpoint { host: "old".to_owned(), port: 1, token: Some("t".to_owned()) };
    spawn_with_scan(&mut hub, endpoint, 3, false, &config(true, ""));
    update_session_endpoint(&mut hub, "x", 5);
    let session = hub.session.unwrap();
    assert_eq!(session.endpoint.host, "x");
    assert_eq!(session.endpoint.port, 5);
    assert_eq!(session.endpoint.token, Some("t".to_owned()));
    assert_eq!(session.sender, 3);
}

#[test]
fn reconnecting_while_switched_off_does_nothing() {
    let mut hub = opened(7);
    hub.status = Status::Idle;
    assert!(matches!(request_reconnect(&mut hub, &config(false, "")), Reconnect::Disabled));
    assert_eq!(connection_status(&hub), 0);
    assert_eq!(hub.session.unwrap().endpoint.host, "old");
}

#[test]
fn reconnecting_without_a_session_spawns_one() {
    let mut hub: Hub<u32> = Hub::new();
    match request_reconnect(&mut hub, &config(true, " tok ")) {
        Reconnect::Spawn(endpoint) => {
            assert_eq!(endpoint.host, "10.0.0.9");
            assert_eq!(endpoint.port, 8765);
            assert_eq!(endpoint.token, Some("tok".to_owned()));
        }
        answer => panic!("{answer:?}"),
    }
    assert_eq!(connection_status(&hub), 0);
}

#[test]
fn reconnecting_keeps_the_sender_of_a_session() {
    let mut hub = opened(7);
    hub.status = Status::Idle;
    match request_reconnect(&mut hub, &config(true, "  ")) {
        Reconnect::Restart(task) => {
            assert_eq!(task.endpoint.host, "10.0.0.9");
            assert_eq!(task.endpoint.token, None);
            assert_eq!(task.mapping.bad.delta, 35);
            assert!(task.scan_on_failure);
        }
        answer => panic!("{answer:?}"),
    }
    assert_eq!(connection_status(&hub), 1);
    assert_eq!(handle_from_session(&hub), Some(&7));
    assert_eq!(hub.session.unwrap().endpoint.host, "10.0.0.9");
}

#[test]
fn starting_gives_the_running_session_or_a_new_one() {
    let mut hub = opened(7);
    assert!(matches!(start_from_config(&hub, &config(false, "")), Start::Running(7)));
    hub.status = Status::Idle;
    assert!(matches!(start_from_config(&hub, &config(false, "")), Start::Disabled));
    match start_from_config(&hub, &config(true, "t")) {
        Start::Spawn(endpoint) => {
            assert_eq!(endpoint.host, "10.0.0.9");
            assert_eq!(endpoint.token, Some("t".to_owned()));
        }
        answer => panic!("{answer:?}"),
    }
}

#[test]
fn a_session_that_nobody_holds_is_given_up() {
    let mut hub = opened(7);
    release(&mut hub, true);
    assert_eq!(handle_from_session(&hub), Some(&7));
    let number = hub.current;
    release(&mut hub, false);
    assert_eq!(handle_from_session(&hub), None);
    assert_eq!(connection_status(&hub), 1);
    assert_eq!(hub.current, number);
    assert!(matches!(request_reconnect(&mut hub, &config(true, "")), Reconnect::Spawn(_)));
}
