use scrcpy_launcher::address::{parse_ipv4, Ipv4};
use scrcpy_launcher::discovery::{
    collect, device_list, plan_scan, subnet_probes, Probe, DEVICE_PORT, PROBE_TIMEOUT_MS,
};
use scrcpy_launcher::interfaces::{
    is_virtual_adapter, parse_ipconfig, usable_address, usable_addresses, with_fallback, Interface,
};

fn ip(a: u8, b: u8, c: u8, d: u8) -> Ipv4 {
    Ipv4 { a, b, c, d }
}

fn probe_to(d: u8) -> Probe {
    Probe { bind: ip(10, 0, 0, 1), target: ip(10, 0, 0, d) }
}

#[test]
fn address_is_read_from_dotted_decimal() {
    assert_eq!(parse_ipv4("192.168.1.5"), Some(ip(192, 168, 1, 5)));
    assert_eq!(parse_ipv4("0.0.0.0"), Some(ip(0, 0, 0, 0)));
    assert_eq!(parse_ipv4("255.255.255.255"), Some(ip(255, 255, 255, 255)));
}

#[test]
fn address_with_other_shapes_is_refused() {
    assert_eq!(parse_ipv4(""), None);
    assert_eq!(parse_ipv4("1.2.3"), None);
    assert_eq!(parse_ipv4("1.2.3.4.5"), None);
    assert_eq!(parse_ipv4("1.2.3.256"), None);
    assert_eq!(parse_ipv4("1.2.3.04"), None);
    assert_eq!(parse_ipv4("1.2..4"), None);
    assert_eq!(parse_ipv4("1.2.3.4 "), None);
    assert_eq!(parse_ipv4("+1.2.3.4"), None);
    assert_eq!(parse_ipv4("1.2.3.1000"), None);
    assert_eq!(parse_ipv4("192.168.1.5(Preferred)"), None);
}

#[test]
fn address_is_written_as_it_is_read() {
    for text in ["10.0.0.250", "192.168.1.5", "0.0.0.0", "255.254.253.252", "1.20.100.9"] {
        let parsed = parse_ipv4(text).unwrap();
        assert_eq!(parsed.to_text(), text);
    }
}

#[test]
fn virtual_adapters_are_told_by_name() {
    assert!(is_virtual_adapter("Ethernet adapter VMware Network Adapter VMnet8:"));
    assert!(is_virtual_adapter("Ethernet adapter vEthernet (WSL):"));
    assert!(is_virtual_adapter("Unknown adapter TAP-Windows Adapter V9:"));
    assert!(is_virtual_adapter("unknown adapter SINGBOX:"));
    assert!(is_virtual_adapter("my vpn"));
    assert!(is_virtual_adapter("Microsoft Wi-Fi Direct Virtual Adapter"));
    assert!(is_virtual_adapter("Teredo Tunneling Pseudo-Interface"));
    assert!(!is_virtual_adapter("Ethernet adapter Ethernet:"));
    assert!(!is_virtual_adapter("Wireless LAN adapter Wi-Fi:"));
    assert!(!is_virtual_adapter(""));
}

#[test]
fn reserved_addresses_are_not_usable() {
    assert!(usable_address("192.168.1.5"));
    assert!(usable_address("10.0.0.1"));
    assert!(!usable_address("127.0.0.1"));
    assert!(!usable_address("198.18.0.1"));
    assert!(!usable_address("169.254.10.20"));
    assert!(!usable_address("fe80::1"));
    assert!(!usable_address("1.2.3"));
    assert!(usable_address("198.19.0.1"));
    assert!(usable_address("127.0.0.2"));
}

const IPCONFIG: &str = "\r\nWindows IP Configuration\r\n\r\n\r\nEthernet adapter Ethernet:\r\n\r\n   Connection-specific DNS Suffix  . : lan\r\n   IPv4 Address. . . . . . . . . . . : 192.168.1.5\r\n   Subnet Mask . . . . . . . . . . . : 255.255.255.0\r\n   Default Gateway . . . . . . . . . : 192.168.1.1\r\n\r\nEthernet adapter vEthernet (WSL):\r\n\r\n   IPv4 Address. . . . . . . . . . . : 172.20.0.1\r\n\r\nUnknown adapter Tunnel:\r\n\r\n   IPv4 Address. . . . . . . . . . . : 198.18.0.1\r\n\r\nWireless LAN adapter Wi-Fi:\r\n\r\n   IPv4 Address. . . . . . . . . . . : 10.0.0.7\r\n   Autoconfiguration IPv4 Address. . : 169.254.3.4\r\n";

#[test]
fn ipconfig_output_lists_addresses_with_their_adapters() {
    let listed = parse_ipconfig(IPCONFIG);
    let expected = vec![
        Interface {
            adapter: "Ethernet adapter Ethernet:".to_string(),
            address: "192.168.1.5".to_string(),
        },
        Interface {
            adapter: "Ethernet adapter vEthernet (WSL):".to_string(),
            address: "172.20.0.1".to_string(),
        },
        Interface { adapter: "Unknown adapter Tunnel:".to_string(), address: "198.18.0.1".to_string() },
        Interface {
            adapter: "Wireless LAN adapter Wi-Fi:".to_string(),
            address: "10.0.0.7".to_string(),
        },
        Interface {
            adapter: "Wireless LAN adapter Wi-Fi:".to_string(),
            address: "169.254.3.4".to_string(),
        },
    ];
    assert_eq!(listed, expected);
}

#[test]
fn only_physical_adapters_with_usable_addresses_are_scanned() {
    let listed = parse_ipconfig(IPCONFIG);
    assert_eq!(usable_addresses(&listed), vec!["192.168.1.5".to_string(), "10.0.0.7".to_string()]);
}

#[test]
fn ipconfig_without_addresses_lists_nothing() {
    assert_eq!(parse_ipconfig(""), Vec::<Interface>::new());
    assert_eq!(parse_ipconfig("Ethernet adapter X:\n   Media State . . . : disconnected\n"), vec![]);
}

#[test]
fn address_before_any_adapter_has_no_adapter_name() {
    let listed = parse_ipconfig("IPv4 Address : 10.1.1.1");
    assert_eq!(
        listed,
        vec![Interface { adapter: String::new(), address: "10.1.1.1".to_string() }]
    );
}

#[test]
fn fallback_is_used_only_without_addresses() {
    let some = vec!["192.168.1.5".to_string()];
    assert_eq!(with_fallback(some.clone(), Some("10.9.9.9".to_string())), some);
    assert_eq!(
        with_fallback(Vec::new(), Some("10.9.9.9".to_string())),
        vec!["10.9.9.9".to_string()]
    );
    assert_eq!(with_fallback(Vec::new(), Some("198.18.0.9".to_string())), Vec::<String>::new());
    assert_eq!(with_fallback(Vec::new(), None), Vec::<String>::new());
}

#[test]
fn probes_cover_the_subnet_without_the_local_address() {
    let local = ip(192, 168, 1, 5);
    let probes = subnet_probes(local);
    assert_eq!(probes.len(), 253);
    assert_eq!(probes[0], Probe { bind: local, target: ip(192, 168, 1, 1) });
    assert_eq!(probes[3].target, ip(192, 168, 1, 4));
    assert_eq!(probes[4].target, ip(192, 168, 1, 6));
    assert_eq!(probes[252].target, ip(192, 168, 1, 254));
    assert!(probes.iter().all(|p| p.bind == local && p.target != local));
    assert_eq!(DEVICE_PORT, 5555);
    assert_eq!(PROBE_TIMEOUT_MS, 150);
}

#[test]
fn local_address_outside_the_host_range_is_not_skipped() {
    assert_eq!(subnet_probes(ip(10, 0, 0, 0)).len(), 254);
    assert_eq!(subnet_probes(ip(10, 0, 0, 255)).len(), 254);
}

#[test]
fn plan_takes_each_readable_local_address_in_turn() {
    let locals =
        vec!["192.168.1.5".to_string(), "not.an.ip.address".to_string(), "10.0.0.7".to_string()];
    let plan = plan_scan(&locals);
    assert_eq!(plan.len(), 506);
    assert_eq!(plan[0].bind, ip(192, 168, 1, 5));
    assert_eq!(plan[253].bind, ip(10, 0, 0, 7));
    assert_eq!(plan[253].target, ip(10, 0, 0, 1));
}

#[test]
fn discovery_leaves_out_own_and_reserved_addresses() {
    let listed = parse_ipconfig(IPCONFIG);
    let locals = with_fallback(usable_addresses(&listed), None);
    let plan = plan_scan(&locals);
    let all = vec![true; plan.len()];
    let found = device_list(&plan, &all);
    assert_eq!(found.len(), 506);
    for address in &found {
        assert_ne!(address, "192.168.1.5");
        assert_ne!(address, "10.0.0.7");
        assert_ne!(address, "127.0.0.1");
        assert!(!address.starts_with("169.254."));
        assert!(!address.starts_with("198.18."));
    }
}

#[test]
fn discovery_results_sort_by_last_octet() {
    let probes = vec![probe_to(250), probe_to(5), probe_to(99)];
    let found = device_list(&probes, &vec![true, true, true]);
    assert_eq!(found, vec!["10.0.0.5", "10.0.0.99", "10.0.0.250"]);
}

#[test]
fn discovery_results_hold_each_address_once() {
    let first = Probe { bind: ip(10, 0, 0, 1), target: ip(10, 0, 0, 9) };
    let second = Probe { bind: ip(10, 0, 0, 2), target: ip(10, 0, 0, 9) };
    let found = collect(&vec![first, second, probe_to(3)], &vec![true, true, true]);
    assert_eq!(found, vec![ip(10, 0, 0, 3), ip(10, 0, 0, 9)]);
}

#[test]
fn equal_last_octets_keep_their_order() {
    let one = Probe { bind: ip(192, 168, 1, 5), target: ip(192, 168, 1, 20) };
    let two = Probe { bind: ip(10, 0, 0, 7), target: ip(10, 0, 0, 20) };
    let three = Probe { bind: ip(10, 0, 0, 7), target: ip(10, 0, 0, 4) };
    let found = collect(&vec![one, two, three], &vec![true, true, true]);
    assert_eq!(found, vec![ip(10, 0, 0, 4), ip(192, 168, 1, 20), ip(10, 0, 0, 20)]);
}

#[test]
fn unreachable_and_unreported_probes_are_left_out() {
    let probes = vec![probe_to(2), probe_to(3), probe_to(4)];
    assert_eq!(collect(&probes, &vec![false, true]), vec![ip(10, 0, 0, 3)]);
    assert_eq!(collect(&probes, &Vec::new()), Vec::<Ipv4>::new());
    assert_eq!(device_list(&Vec::new(), &vec![true]), Vec::<String>::new());
}
