use zher_transfer::ifaces::{
    calculate_broadcast_address, get_broadcast_addresses, get_network_interfaces,
    is_hotspot_interface, is_wlan_interface, list_broadcast_targets, matches_hotspot, matches_wlan,
    FoundInterface, InterfaceAddr, Ipv4, NetworkInterface,
};

fn v4(name: &str, a: u8, b: u8, c: u8, d: u8) -> FoundInterface {
    FoundInterface { name: name.to_string(), addr: InterfaceAddr::V4(Ipv4::new(a, b, c, d)) }
}

fn v6(name: &str) -> FoundInterface {
    FoundInterface { name: name.to_string(), addr: InterfaceAddr::V6 }
}

#[test]
fn hotspot_names_are_recognised() {
    assert!(is_hotspot_interface("ap0"));
    assert!(is_hotspot_interface("wlan1"));
    assert!(is_hotspot_interface("softap0"));
    assert!(is_hotspot_interface("swlan0"));
    assert!(is_hotspot_interface("wlan0-ap"));
    assert!(is_hotspot_interface("laptop"));
    assert!(!is_hotspot_interface("wlan0"));
    assert!(!is_hotspot_interface("eth0"));
    assert!(!is_hotspot_interface("lo"));
    assert!(!is_hotspot_interface(""));
    assert!(!is_hotspot_interface("wlan10"));
}

#[test]
fn hotspot_names_are_recognised_in_any_case() {
    assert!(is_hotspot_interface("AP0"));
    assert!(is_hotspot_interface("WLAN1"));
    assert!(is_hotspot_interface("SoftAP0"));
    assert!(is_hotspot_interface("SWLAN0"));
    assert!(!is_hotspot_interface("ETH0"));
}

#[test]
fn wireless_names_are_recognised() {
    assert!(is_wlan_interface("wlan0"));
    assert!(is_wlan_interface("wifi0"));
    assert!(is_wlan_interface("wi-fi"));
    assert!(is_wlan_interface("Intel Wireless Adapter"));
    assert!(!is_wlan_interface("eth0"));
    assert!(!is_wlan_interface("en0"));
    assert!(!is_wlan_interface("xwlan0"));
    assert!(!is_wlan_interface("my wifi"));
    assert!(!is_wlan_interface(""));
}

#[test]
fn wireless_names_are_recognised_in_any_case() {
    assert!(is_wlan_interface("WLAN0"));
    assert!(is_wlan_interface("Wi-Fi"));
    assert!(is_wlan_interface("WiFi 2"));
    assert!(is_wlan_interface("WIRELESS"));
}

#[test]
fn names_are_lowered_as_unicode_lowers_them() {
    assert!(is_wlan_interface("WI-F\u{130}"));
    assert!(!matches_wlan("WI-F\u{130}"));
    assert_eq!(is_wlan_interface("WI-F\u{130}"), "WI-F\u{130}".to_lowercase().starts_with("wi-fi"));
}

#[test]
fn patterns_are_matched_on_lower_case_names_as_given() {
    assert!(matches_hotspot("ap0"));
    assert!(!matches_hotspot("AP0"));
    assert!(matches_wlan("wlan0"));
    assert!(!matches_wlan("WLAN0"));
}

#[test]
fn broadcast_address_ends_in_255() {
    assert_eq!(calculate_broadcast_address(Ipv4::new(192, 168, 1, 7)), Ipv4::new(192, 168, 1, 255));
    assert_eq!(calculate_broadcast_address(Ipv4::new(10, 0, 0, 255)), Ipv4::new(10, 0, 0, 255));
    assert_eq!(calculate_broadcast_address(Ipv4::new(172, 16, 200, 0)), Ipv4::new(172, 16, 200, 255));
}

#[test]
fn address_parts() {
    let ip = Ipv4::new(192, 168, 43, 1);
    assert_eq!(ip.octets(), [192, 168, 43, 1]);
    assert_eq!(ip.to_u32(), 0xC0A82B01);
    assert_eq!(Ipv4::new(255, 255, 255, 255).to_u32(), u32::MAX);
    assert!(!ip.is_loopback());
    assert!(Ipv4::new(127, 0, 0, 1).is_loopback());
    assert!(Ipv4::new(127, 255, 0, 9).is_loopback());
}

#[test]
fn interfaces_are_filtered_and_described() {
    let found = vec![
        v4("lo", 127, 0, 0, 1),
        v4("eth0", 10, 0, 0, 5),
        v4("wlan0", 192, 168, 1, 7),
        v6("wlan0"),
        v4("ap0", 192, 168, 43, 1),
        v4("wlan9", 127, 0, 0, 2),
    ];
    let interfaces = get_network_interfaces(&found);
    assert_eq!(
        interfaces,
        vec![
            NetworkInterface {
                name: "wlan0".to_string(),
                ip: Ipv4::new(192, 168, 1, 7),
                broadcast_address: Ipv4::new(192, 168, 1, 255),
                is_hotspot: false,
            },
            NetworkInterface {
                name: "ap0".to_string(),
                ip: Ipv4::new(192, 168, 43, 1),
                broadcast_address: Ipv4::new(192, 168, 43, 255),
                is_hotspot: true,
            },
        ]
    );
}

#[test]
fn broadcast_addresses_are_sorted_and_unique() {
    let interfaces = get_network_interfaces(&vec![
        v4("wlan1", 192, 168, 43, 1),
        v4("wlan0", 192, 168, 1, 7),
        v4("wifi0", 192, 168, 1, 99),
        v4("ap0", 10, 1, 2, 3),
    ]);
    assert_eq!(
        get_broadcast_addresses(&interfaces),
        vec![Ipv4::new(10, 1, 2, 255), Ipv4::new(192, 168, 1, 255), Ipv4::new(192, 168, 43, 255)]
    );
    assert_eq!(get_broadcast_addresses(&Vec::new()), Vec::<Ipv4>::new());
}

#[test]
fn broadcast_targets_have_no_duplicates_and_no_loopback() {
    let found = vec![
        v4("wlan0", 192, 168, 1, 7),
        v4("WLAN1", 192, 168, 1, 8),
        v4("wlan2", 127, 0, 0, 1),
        v4("lo", 127, 0, 0, 1),
        v4("softap0", 192, 168, 0, 1),
        v4("wlan3", 192, 168, 1, 9),
    ];
    let targets = list_broadcast_targets(&found);
    assert_eq!(targets, vec![Ipv4::new(192, 168, 0, 255), Ipv4::new(192, 168, 1, 255)]);
    for (i, target) in targets.iter().enumerate() {
        assert!(!target.is_loopback());
        for other in &targets[i + 1..] {
            assert_ne!(target, other);
        }
    }
}

#[test]
fn broadcast_targets_are_ordered_by_octets() {
    let found = vec![v4("wlan0", 200, 0, 0, 1), v4("wlan1", 9, 255, 255, 1), v4("wlan2", 10, 0, 0, 1)];
    assert_eq!(
        list_broadcast_targets(&found),
        vec![Ipv4::new(9, 255, 255, 255), Ipv4::new(10, 0, 0, 255), Ipv4::new(200, 0, 0, 255)]
    );
}

#[test]
fn no_qualifying_interface_means_no_target() {
    assert_eq!(list_broadcast_targets(&Vec::new()), Vec::<Ipv4>::new());
    let found = vec![v4("lo", 127, 0, 0, 1), v4("eth0", 10, 0, 0, 5), v6("wlan0"), v4("docker0", 172, 17, 0, 1)];
    assert_eq!(list_broadcast_targets(&found), Vec::<Ipv4>::new());
    assert_eq!(get_network_interfaces(&found), Vec::<NetworkInterface>::new());
}
