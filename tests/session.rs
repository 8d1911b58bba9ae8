use device_link::{
    should_launch, switch_mode_args, Action, BrokerError, Event, InterfaceAddr, Ipv4Addr,
    NetworkEndpoint, Phase, Session, ShellCommand, ZBBError,
};

const ROUTE: &str = "192.168.1.0/24 dev wlan0 proto kernel scope link src 192.168.1.23\n";

fn lan() -> Vec<InterfaceAddr> {
    vec![InterfaceAddr {
        ip: Some(Ipv4Addr::new(192, 168, 1, 10)),
        netmask: Some(Ipv4Addr::new(255, 255, 255, 0)),
    }]
}

fn opened(serial: &str, port: u16) -> Session {
    let (mut s, first) = Session::new(serial.to_string(), port);
    assert!(matches!(first, Action::OpenBroker));
    assert!(matches!(s.step(Event::Opened), Action::Shell(ShellCommand::ReadPort)));
    s
}

fn endpoint() -> NetworkEndpoint {
    NetworkEndpoint { ip: Ipv4Addr::new(192, 168, 1, 23), port: 5555 }
}

#[test]
fn configured_port_skips_mode_switch() {
    let mut s = opened("R58M", 5555);
    let a = s.step(Event::Output(b"5555\r\n".to_vec()));
    assert!(matches!(a, Action::Shell(ShellCommand::ReadRoute)));
    assert_eq!(s.phase, Phase::ReadingRoute);
    assert!(matches!(s.step(Event::Output(ROUTE.as_bytes().to_vec())), Action::ListInterfaces));
    match s.step(Event::Interfaces(lan())) {
        Action::Connect(ep) => assert_eq!(ep, endpoint()),
        other => panic!("unexpected {:?}", other),
    }
    match s.step(Event::Connected) {
        Action::Finish(Ok(ep)) => assert_eq!(ep, endpoint()),
        other => panic!("unexpected {:?}", other),
    }
}

#[test]
fn other_port_asks_for_mode_switch() {
    let mut s = opened("R58M", 5555);
    assert!(matches!(s.step(Event::Output(b"\n".to_vec())), Action::SwitchMode));
    let mut s = opened("R58M", 5555);
    assert!(matches!(s.step(Event::Output(b"55550".to_vec())), Action::SwitchMode));
    assert_eq!(switch_mode_args(&"R58M".to_string(), 5555), vec!["-s", "R58M", "tcpip", "5555"]);
    assert_eq!(switch_mode_args(&"x".to_string(), 0), vec!["-s", "x", "tcpip", "0"]);
}

#[test]
fn device_that_never_returns_is_polled_five_times() {
    let mut s = opened("R58M", 5555);
    assert!(matches!(s.step(Event::Output(b"-1\n".to_vec())), Action::SwitchMode));
    let mut a = s.step(Event::Switched);
    let mut sleeps = 0;
    let mut lists = 0;
    loop {
        match a {
            Action::Sleep(ms) => {
                assert_eq!(ms, 1000);
                sleeps += 1;
                a = s.step(Event::Slept);
            }
            Action::ListDevices => {
                lists += 1;
                a = s.step(Event::Devices(vec!["other".to_string()]));
            }
            Action::Shell(ShellCommand::ReadRoute) => break,
            other => panic!("unexpected {:?}", other),
        }
    }
    assert_eq!((sleeps, lists), (5, 5));
    assert_eq!(s.phase, Phase::ReadingRoute);
}

#[test]
fn polling_stops_when_device_returns() {
    let mut s = opened("R58M", 5555);
    s.step(Event::Output(b"\n".to_vec()));
    assert!(matches!(s.step(Event::Switched), Action::Sleep(1000)));
    assert!(matches!(s.step(Event::Slept), Action::ListDevices));
    assert!(matches!(s.step(Event::Devices(vec![])), Action::Sleep(1000)));
    assert!(matches!(s.step(Event::Slept), Action::ListDevices));
    let a = s.step(Event::Devices(vec!["a".to_string(), "R58M".to_string()]));
    assert!(matches!(a, Action::Shell(ShellCommand::ReadRoute)));
}

#[test]
fn already_connected_error_is_success() {
    let mut s = opened("R58M", 5555);
    s.step(Event::Output(b"5555".to_vec()));
    s.step(Event::Output(ROUTE.as_bytes().to_vec()));
    s.step(Event::Interfaces(lan()));
    let e = BrokerError::Protocol("ADB request failed: already connected to 192.168.1.23:5555".to_string());
    match s.step(Event::BrokerFailed(e)) {
        Action::Finish(Ok(ep)) => assert_eq!(ep, endpoint()),
        other => panic!("unexpected {:?}", other),
    }
    assert_eq!(s.phase, Phase::Finished);
}

#[test]
fn other_connect_error_is_returned() {
    let mut s = opened("R58M", 5555);
    s.step(Event::Output(b"5555".to_vec()));
    s.step(Event::Output(ROUTE.as_bytes().to_vec()));
    s.step(Event::Interfaces(lan()));
    let e = BrokerError::Protocol("connection refused".to_string());
    match s.step(Event::BrokerFailed(e)) {
        Action::Finish(Err(x)) => assert_eq!(x, ZBBError::ADB("connection refused".to_string())),
        other => panic!("unexpected {:?}", other),
    }
}

#[test]
fn unreachable_device_is_not_connected() {
    let mut s = opened("R58M", 5555);
    s.step(Event::Output(b"5555".to_vec()));
    let route = "10.0.0.0/8 dev wlan0 proto kernel scope link src 10.0.0.5\n";
    assert!(matches!(s.step(Event::Output(route.as_bytes().to_vec())), Action::ListInterfaces));
    match s.step(Event::Interfaces(lan())) {
        Action::Finish(Err(x)) => assert_eq!(x, ZBBError::NotInSameNetwork),
        other => panic!("unexpected {:?}", other),
    }
}

#[test]
fn missing_route_means_no_network() {
    let mut s = opened("R58M", 5555);
    s.step(Event::Output(b"5555".to_vec()));
    match s.step(Event::Output(b"default via 10.0.0.1 dev wlan0\n".to_vec())) {
        Action::Finish(Err(x)) => assert_eq!(x, ZBBError::NotInANetwork),
        other => panic!("unexpected {:?}", other),
    }
}

#[test]
fn broker_is_launched_once_then_retried() {
    let (mut s, _) = Session::new("R58M".to_string(), 5555);
    let a = s.step(Event::BrokerFailed(BrokerError::Io("connection refused".to_string())));
    assert!(matches!(a, Action::LaunchBroker));
    assert!(matches!(s.step(Event::Launched), Action::OpenBroker));
    assert!(matches!(s.step(Event::Opened), Action::Shell(ShellCommand::ReadPort)));
}

#[test]
fn second_open_failure_is_fatal() {
    let (mut s, _) = Session::new("R58M".to_string(), 5555);
    s.step(Event::BrokerFailed(BrokerError::Io("refused".to_string())));
    s.step(Event::Launched);
    match s.step(Event::BrokerFailed(BrokerError::Io("refused again".to_string()))) {
        Action::Finish(Err(x)) => assert_eq!(x, ZBBError::ADB("refused again".to_string())),
        other => panic!("unexpected {:?}", other),
    }
}

#[test]
fn protocol_failure_on_open_launches_nothing() {
    let (mut s, _) = Session::new("R58M".to_string(), 5555);
    match s.step(Event::BrokerFailed(BrokerError::Protocol("bad".to_string()))) {
        Action::Finish(Err(x)) => assert_eq!(x, ZBBError::ADB("bad".to_string())),
        other => panic!("unexpected {:?}", other),
    }
    assert!(should_launch(&BrokerError::Io("x".to_string()), false));
    assert!(!should_launch(&BrokerError::Io("x".to_string()), true));
    assert!(!should_launch(&BrokerError::Protocol("x".to_string()), false));
}

#[test]
fn failures_of_outside_steps_are_reported() {
    let mut s = opened("R58M", 5555);
    s.step(Event::Output(b"1".to_vec()));
    match s.step(Event::SpawnFailed("no such file".to_string())) {
        Action::Finish(Err(x)) => assert_eq!(x, ZBBError::IO("no such file".to_string())),
        other => panic!("unexpected {:?}", other),
    }
    let mut s = opened("R58M", 5555);
    match s.step(Event::Output(vec![0xff])) {
        Action::Finish(Err(x)) => {
            assert_eq!(x, ZBBError::Other("device output is not valid UTF-8".to_string()))
        }
        other => panic!("unexpected {:?}", other),
    }
    let mut s = opened("R58M", 5555);
    s.step(Event::Output(b"5555".to_vec()));
    s.step(Event::Output(ROUTE.as_bytes().to_vec()));
    match s.step(Event::InterfacesFailed("netlink".to_string())) {
        Action::Finish(Err(x)) => assert_eq!(x, ZBBError::Other("netlink".to_string())),
        other => panic!("unexpected {:?}", other),
    }
}

#[test]
fn out_of_order_event_ends_the_switch() {
    let (mut s, _) = Session::new("R58M".to_string(), 5555);
    match s.step(Event::Slept) {
        Action::Finish(Err(x)) => assert_eq!(x, ZBBError::Other("unexpected event".to_string())),
        other => panic!("unexpected {:?}", other),
    }
    assert_eq!(s.phase, Phase::Finished);
}

#[test]
fn shell_command_lines() {
    assert_eq!(ShellCommand::ReadPort.argv(), vec!["getprop", "service.adb.tcp.port"]);
    assert_eq!(ShellCommand::ReadRoute.argv(), vec!["ip", "route"]);
}

#[test]
fn bare_already_connected_message_is_success() {
    let mut s = opened("R58M", 5555);
    s.step(Event::Output(b"5555".to_vec()));
    s.step(Event::Output(ROUTE.as_bytes().to_vec()));
    s.step(Event::Interfaces(lan()));
    let e = BrokerError::Protocol("already connected".to_string());
    match s.step(Event::BrokerFailed(e)) {
        Action::Finish(Ok(ep)) => assert_eq!(ep, endpoint()),
        other => panic!("unexpected {:?}", other),
    }
}
