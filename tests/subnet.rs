use device_link::{is_match, test_network, InterfaceAddr, Ipv4Addr, ZBBError};

#[test]
fn util_test_ip_check() {
    let ip1 = Ipv4Addr::new(192, 168, 1, 5);
    let ip2 = Ipv4Addr::new(192, 168, 1, 155);
    let ip3 = Ipv4Addr::new(192, 168, 2, 155);
    let netmask = Ipv4Addr::new(255, 255, 255, 0);
    let netmask2 = Ipv4Addr::new(255, 255, 0, 0);

    assert_eq!(true, is_match(ip1, ip2, netmask));
    assert_eq!(false, is_match(ip1, ip3, netmask));
    assert_eq!(true, is_match(ip1, ip3, netmask2));
}

#[test]
fn main_test_ip_check() {
    let ip1 = Ipv4Addr::new(192, 168, 1, 5);
    let ip2 = Ipv4Addr::new(192, 168, 1, 155);
    let ip3 = Ipv4Addr::new(192, 168, 2, 155);
    let netmask = Ipv4Addr::new(255, 255, 255, 0);
    let netmask2 = Ipv4Addr::new(255, 255, 0, 0);

    assert_eq!(true, is_match(ip1, ip2, netmask));
    assert_eq!(false, is_match(ip1, ip3, netmask));
    assert_eq!(true, is_match(ip1, ip3, netmask2));
}

#[test]
fn subnet_match_is_symmetric() {
    let a = Ipv4Addr::new(10, 1, 2, 3);
    let b = Ipv4Addr::new(10, 1, 9, 3);
    let masks = [
        Ipv4Addr::new(255, 255, 255, 0),
        Ipv4Addr::new(255, 255, 0, 0),
        Ipv4Addr::new(255, 255, 240, 0),
        Ipv4Addr::new(0, 0, 0, 0),
    ];
    for m in masks {
        assert_eq!(is_match(a, b, m), is_match(b, a, m));
    }
}

#[test]
fn full_mask_means_equal_and_empty_mask_matches_all() {
    let full = Ipv4Addr::new(255, 255, 255, 255);
    let none = Ipv4Addr::new(0, 0, 0, 0);
    let a = Ipv4Addr::new(192, 168, 1, 23);
    let b = Ipv4Addr::new(192, 168, 1, 24);
    assert!(is_match(a, a, full));
    assert!(!is_match(a, b, full));
    assert!(is_match(a, b, none));
    assert!(is_match(a, Ipv4Addr::new(8, 8, 8, 8), none));
}

#[test]
fn partial_mask_bits_are_compared() {
    let mask = Ipv4Addr::new(255, 255, 255, 240);
    assert!(is_match(Ipv4Addr::new(10, 0, 0, 17), Ipv4Addr::new(10, 0, 0, 30), mask));
    assert!(!is_match(Ipv4Addr::new(10, 0, 0, 17), Ipv4Addr::new(10, 0, 0, 33), mask));
}

fn lan() -> Vec<InterfaceAddr> {
    vec![
        InterfaceAddr { ip: None, netmask: None },
        InterfaceAddr { ip: Some(Ipv4Addr::new(127, 0, 0, 1)), netmask: Some(Ipv4Addr::new(255, 0, 0, 0)) },
        InterfaceAddr {
            ip: Some(Ipv4Addr::new(192, 168, 1, 10)),
            netmask: Some(Ipv4Addr::new(255, 255, 255, 0)),
        },
    ]
}

#[test]
fn device_on_local_subnet_is_reachable() {
    assert_eq!(test_network(Ipv4Addr::new(192, 168, 1, 23), &lan()), Ok(()));
}

#[test]
fn device_on_other_subnet_is_not_reachable() {
    assert_eq!(test_network(Ipv4Addr::new(10, 0, 0, 5), &lan()), Err(ZBBError::NotInSameNetwork));
}

#[test]
fn interfaces_without_ipv4_netmask_are_skipped() {
    let only_v6 = vec![
        InterfaceAddr { ip: None, netmask: None },
        InterfaceAddr { ip: Some(Ipv4Addr::new(192, 168, 1, 10)), netmask: None },
    ];
    assert_eq!(test_network(Ipv4Addr::new(192, 168, 1, 10), &only_v6), Err(ZBBError::NotInSameNetwork));
    assert_eq!(test_network(Ipv4Addr::new(192, 168, 1, 10), &vec![]), Err(ZBBError::NotInSameNetwork));
}
