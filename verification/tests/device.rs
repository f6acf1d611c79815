use device_identity::device::{
    addresses_or_none, get_device_info, resolve, resolve_live, select_interface_live, DeviceInfo,
    HostMetadata,
};
use device_identity::interfaces::{InterfaceAddressEntry, InterfaceHardwareEntry, IpAddress};
use device_identity::selection::Selection;

fn host() -> HostMetadata {
    HostMetadata::from_reported(
        Some("Ubuntu".to_string()),
        Some("24.04".to_string()),
        Some("bench".to_string()),
    )
}

fn hardware(name: &str, hardware_address: [u8; 6]) -> InterfaceHardwareEntry {
    InterfaceHardwareEntry { name: name.to_string(), hardware_address }
}

fn v4(name: &str, ip: [u8; 4]) -> InterfaceAddressEntry {
    InterfaceAddressEntry {
        name: name.to_string(),
        ip_address: IpAddress::V4(ip),
        is_loopback: false,
    }
}

fn is_mac_text(text: &str) -> bool {
    text.len() == 17
        && text.chars().enumerate().all(|(at, c)| {
            if at % 3 == 2 {
                c == ':'
            } else {
                c.is_ascii_digit() || ('a'..='f').contains(&c)
            }
        })
}

#[test]
fn unreported_metadata_gets_the_placeholders() {
    let host = HostMetadata::from_reported(None, None, None);
    assert_eq!(host.os_name, "Unknown OS");
    assert_eq!(host.os_version, "Unknown Version");
    assert_eq!(host.host_name, "Unknown Device");
}

#[test]
fn reported_metadata_is_kept() {
    let host = host();
    assert_eq!(host.os_name, "Ubuntu");
    assert_eq!(host.os_version, "24.04");
    assert_eq!(host.host_name, "bench");
}

#[test]
fn each_metadata_field_gets_its_own_placeholder() {
    let host = HostMetadata::from_reported(None, Some("15.1".to_string()), None);
    assert_eq!(host.os_name, "Unknown OS");
    assert_eq!(host.os_version, "15.1");
    assert_eq!(host.host_name, "Unknown Device");
    let host = HostMetadata::from_reported(Some(String::new()), None, Some("box".to_string()));
    assert_eq!(host.os_name, "");
    assert_eq!(host.os_version, "Unknown Version");
    assert_eq!(host.host_name, "box");
}

#[test]
fn identity_without_a_selection_has_no_mac() {
    let info = DeviceInfo::new(host(), None);
    assert_eq!(
        info,
        DeviceInfo {
            os_name: "Ubuntu".to_string(),
            os_version: "24.04".to_string(),
            host_name: "bench".to_string(),
            mac_address: None,
        }
    );
}

#[test]
fn identity_takes_the_mac_of_the_selection() {
    let chosen = Selection {
        index: 4,
        hardware_address: [0xDE, 0xAD, 0xBE, 0xEF, 0x00, 0x01],
        ip_address: None,
    };
    let info = DeviceInfo::new(host(), Some(chosen));
    assert_eq!(info.mac_address, Some("de:ad:be:ef:00:01".to_string()));
    assert_eq!(info.os_name, "Ubuntu");
}

#[test]
fn scenario_ipv4_match_gives_wlan0_mac() {
    let a = vec![
        hardware("eth0", [0x00, 0x00, 0x00, 0x00, 0x00, 0x00]),
        hardware("wlan0", [0xAA, 0xBB, 0xCC, 0xDD, 0xEE, 0xFF]),
    ];
    let b = vec![v4("wlan0", [192, 168, 1, 5])];
    let info = resolve(host(), &a, &b);
    assert_eq!(info.mac_address, Some("aa:bb:cc:dd:ee:ff".to_string()));
}

#[test]
fn scenario_single_interface_without_ip_gives_its_mac() {
    let a = vec![hardware("eth0", [0x11, 0x22, 0x33, 0x44, 0x55, 0x66])];
    let info = resolve(host(), &a, &vec![]);
    assert_eq!(info.mac_address, Some("11:22:33:44:55:66".to_string()));
}

#[test]
fn scenario_later_interface_gives_its_mac_without_ip() {
    let a = vec![hardware("a", [0x01; 6]), hardware("b", [0x02; 6])];
    let info = resolve(host(), &a, &vec![]);
    assert_eq!(info.mac_address, Some("02:02:02:02:02:02".to_string()));
}

#[test]
fn all_zero_enumeration_gives_no_mac() {
    let a = vec![hardware("eth0", [0; 6]), hardware("wlan0", [0; 6])];
    let b = vec![v4("eth0", [10, 0, 0, 1])];
    let info = resolve(HostMetadata::from_reported(None, None, None), &a, &b);
    assert_eq!(
        info,
        DeviceInfo {
            os_name: "Unknown OS".to_string(),
            os_version: "Unknown Version".to_string(),
            host_name: "Unknown Device".to_string(),
            mac_address: None,
        }
    );
}

#[test]
fn mac_is_of_an_interface_in_the_enumeration() {
    let a = vec![
        hardware("eth0", [0; 6]),
        hardware("eth1", [0x02, 0x42, 0xAC, 0x11, 0x00, 0x02]),
        hardware("eth2", [0; 6]),
    ];
    let info = resolve(host(), &a, &vec![v4("eth9", [10, 0, 0, 1])]);
    assert_eq!(info.mac_address, Some("02:42:ac:11:00:02".to_string()));
}

#[test]
fn ipv4_match_is_not_overwritten_by_later_interfaces() {
    let a = vec![
        hardware("eth0", [0x02, 0, 0, 0, 0, 0x01]),
        hardware("eth1", [0x02, 0, 0, 0, 0, 0x02]),
        hardware("eth2", [0x02, 0, 0, 0, 0, 0x03]),
    ];
    let b = vec![v4("eth2", [10, 0, 2, 1]), v4("eth1", [10, 0, 1, 1]), v4("eth0", [10, 0, 0, 1])];
    let info = resolve(host(), &a, &b);
    assert_eq!(info.mac_address, Some("02:00:00:00:00:01".to_string()));
}

#[test]
fn last_interface_wins_where_none_has_an_ip() {
    let a = vec![
        hardware("a", [0x0A; 6]),
        hardware("b", [0x0B; 6]),
        hardware("c", [0x0C; 6]),
        hardware("z", [0; 6]),
    ];
    let info = resolve(host(), &a, &vec![v4("d", [10, 0, 0, 1])]);
    assert_eq!(info.mac_address, Some("0c:0c:0c:0c:0c:0c".to_string()));
}

#[test]
fn live_walk_selects_nothing_without_a_candidate() {
    assert_eq!(select_interface_live(&vec![]), None);
    let a = vec![hardware("eth0", [0; 6]), hardware("lo", [0; 6])];
    assert_eq!(select_interface_live(&a), None);
    assert_eq!(resolve_live(host(), &a).mac_address, None);
}

#[test]
fn live_walk_ends_with_the_last_candidate_this_machine_does_not_have() {
    let a = vec![
        hardware("no-such-interface-one", [0x01; 6]),
        hardware("no-such-interface-two", [0x02; 6]),
        hardware("no-such-interface-three", [0; 6]),
    ];
    assert_eq!(
        select_interface_live(&a),
        Some(Selection { index: 1, hardware_address: [0x02; 6], ip_address: None })
    );
    let info = resolve_live(host(), &a);
    assert_eq!(info.mac_address, Some("02:02:02:02:02:02".to_string()));
    assert_eq!(info.host_name, "bench");
}

#[test]
fn this_machine_has_an_identity() {
    let info = get_device_info().expect("the identity is always there");
    if let Some(text) = &info.mac_address {
        assert!(is_mac_text(text));
        assert_ne!(text, "00:00:00:00:00:00");
    }
}

#[test]
fn this_machine_is_asked_anew_each_time() {
    let first = get_device_info();
    let second = get_device_info();
    assert!(first.is_ok());
    assert!(second.is_ok());
}

#[test]
fn listed_addresses_are_handed_on_as_they_came() {
    let listed = vec![v4("eth1", [10, 0, 1, 1]), v4("eth0", [10, 0, 0, 1]), v4("eth1", [10, 0, 1, 2])];
    assert_eq!(addresses_or_none(Ok(listed.clone())), listed);
    assert_eq!(addresses_or_none(Ok(vec![])), vec![]);
}

#[test]
fn a_failed_listing_gives_no_addresses() {
    let failure = std::io::Error::new(std::io::ErrorKind::PermissionDenied, "not allowed");
    assert_eq!(addresses_or_none(Err(failure)), vec![]);
}
