use playfruit::devices::{
    find_speaker, pick_address, reachable_speakers, resolve_device, resolve_lowered, scan_speakers,
    sort_by_name, speaker_label, Address, Device, DeviceKind, Ip, Resolution, Speaker,
    AIRPLAY_PORT,
};

fn v4(last: u32) -> Address {
    Address { ip: Ip::V4(0xC0A8_0000 + last), text: format!("192.168.0.{last}") }
}

fn v6(last: u128) -> Address {
    Address { ip: Ip::V6(last), text: format!("::{last}") }
}

fn device(name: &str, addresses: Vec<Address>, kind: DeviceKind) -> Device {
    Device { name: name.to_string(), addresses, supports_airplay2: true, kind }
}

fn speaker(name: &str, last: u32) -> Speaker {
    Speaker {
        name: name.to_string(),
        address: v4(last),
        port: AIRPLAY_PORT,
        kind: DeviceKind::HomePod,
    }
}

fn names(s: &Vec<Speaker>) -> Vec<&str> {
    s.iter().map(|s| s.name.as_str()).collect()
}

#[test]
fn ipv4_is_preferred() {
    assert_eq!(pick_address(&vec![v6(1), v4(2), v4(3)]).unwrap().ip, v4(2).ip);
    assert_eq!(pick_address(&vec![v6(1), v6(2)]).unwrap().ip, v6(1).ip);
    assert!(pick_address(&vec![]).is_none());
}

#[test]
fn scan_lists_each_player_once_by_name() {
    let mut old = device("Old", vec![v4(9)], DeviceKind::HomePod);
    old.supports_airplay2 = false;
    let found = scan_speakers(&vec![
        device("kitchen", vec![v4(1)], DeviceKind::HomePod),
        device("AABBCC@kitchen", vec![v4(1)], DeviceKind::HomePod),
        device("Den", vec![v6(7), v4(2)], DeviceKind::AppleTv),
        device("Den again", vec![v4(2)], DeviceKind::AppleTv),
        device("Laptop", vec![v4(3)], DeviceKind::OtherAirPlay),
        device("Nowhere", vec![], DeviceKind::HomePod),
        old,
        device("Attic", vec![v4(5)], DeviceKind::HomePod),
    ]);
    assert_eq!(names(&found), vec!["Attic", "Den", "kitchen"]);
    assert_eq!(found[1].address.text, "192.168.0.2");
    assert_eq!(found[1].port, 7000);
    assert_eq!(found[1].kind, DeviceKind::AppleTv);
}

#[test]
fn sorting_is_stable_and_by_code_point() {
    let sorted = sort_by_name(vec![
        speaker("b", 1),
        speaker("é", 2),
        speaker("a", 3),
        speaker("b", 4),
        speaker("", 5),
        speaker("ab", 6),
        speaker("B", 7),
        speaker("\u{FFFD}", 8),
        speaker("\u{1F350}", 9),
    ]);
    let order: Vec<(&str, Ip)> =
        sorted.iter().map(|s| (s.name.as_str(), s.address.ip)).collect();
    let mut expected = vec![
        ("b", v4(1).ip),
        ("é", v4(2).ip),
        ("a", v4(3).ip),
        ("b", v4(4).ip),
        ("", v4(5).ip),
        ("ab", v4(6).ip),
        ("B", v4(7).ip),
        ("\u{FFFD}", v4(8).ip),
        ("\u{1F350}", v4(9).ip),
    ];
    expected.sort_by(|a, b| a.0.cmp(b.0));
    assert_eq!(order, expected);
}

#[test]
fn reachable_speakers_keep_order_and_kind() {
    let mut old = device("Old", vec![v4(9)], DeviceKind::HomePod);
    old.supports_airplay2 = false;
    let found = reachable_speakers(&vec![
        device("Z", vec![v4(1)], DeviceKind::OtherAirPlay),
        device("A", vec![v4(1)], DeviceKind::HomePod),
        device("x@A", vec![v4(1)], DeviceKind::HomePod),
        device("None", vec![], DeviceKind::HomePod),
        old,
    ]);
    assert_eq!(names(&found), vec!["Z", "A"]);
}

#[test]
fn labels_name_the_kind() {
    let mut s = speaker("Kitchen", 1);
    assert_eq!(speaker_label(&s), "Kitchen  (HomePod)");
    s.kind = DeviceKind::AppleTv;
    assert_eq!(speaker_label(&s), "Kitchen  (Apple TV)");
    s.kind = DeviceKind::OtherAirPlay;
    assert_eq!(speaker_label(&s), "Kitchen");
}

#[test]
fn name_fragment_in_any_case_finds_the_first_device() {
    let devices = vec![
        device("x@Kitchen", vec![v4(1)], DeviceKind::HomePod),
        device("Living Room", vec![v4(2)], DeviceKind::HomePod),
        device("KITCHEN left", vec![v4(3)], DeviceKind::HomePod),
        device("Kitchen right", vec![v4(4)], DeviceKind::HomePod),
        device("Attic", vec![], DeviceKind::HomePod),
        device("ÉCOLE", vec![v4(6)], DeviceKind::HomePod),
    ];
    match resolve_device(&devices, "kitCHen") {
        Resolution::Found { name, address } => {
            assert_eq!(name, "KITCHEN left");
            assert_eq!(address.text, "192.168.0.3");
        }
        other => panic!("{other:?}"),
    }
    assert!(matches!(resolve_device(&devices, "école"), Resolution::Found { .. }));
    assert!(matches!(resolve_device(&devices, "att"),
        Resolution::NoAddress { ref name } if name == "Attic"));
    assert!(matches!(resolve_device(&devices, "garage"), Resolution::NoMatch));
    // The empty fragment is in every name.
    assert!(matches!(resolve_device(&devices, ""),
        Resolution::Found { ref name, .. } if name == "Living Room"));
}

#[test]
fn lowered_names_are_compared_as_they_stand() {
    let devices = vec![
        device("A", vec![v4(1)], DeviceKind::HomePod),
        device("B", vec![v4(2)], DeviceKind::HomePod),
    ];
    let lowered = vec!["xx".to_string(), "yxy".to_string()];
    assert!(matches!(resolve_lowered(&devices, &lowered, "yx"),
        Resolution::Found { ref name, .. } if name == "B"));
    assert!(matches!(resolve_lowered(&devices, &lowered, "X"), Resolution::NoMatch));
}

#[test]
fn speaker_is_found_by_fragment() {
    let speakers = vec![speaker("Den", 1), speaker("Garden", 2)];
    assert_eq!(find_speaker(&speakers, "DEN"), Some(0));
    assert_eq!(find_speaker(&speakers, "gard"), Some(1));
    assert_eq!(find_speaker(&speakers, "x"), None);
}
