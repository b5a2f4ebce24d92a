use playfruit::click::{track_chunk, track_len, ClickChunk};
use playfruit::devices::{Address, DeviceKind, Ip, Speaker};
use playfruit::icon::{make_icon, IconState, ICON_SIZE};
use playfruit::numbers::{parse_index, to_decimal};
use playfruit::settings::{LatencyProfile, Settings};
use playfruit::tray::{
    id_of_latency, label_of_latency, menu_command, Effect, MenuCommand, Tray, VolumePreset,
};
use playfruit::EngineStatus;

fn speaker(name: &str, last: u32) -> Speaker {
    Speaker {
        name: name.to_string(),
        address: Address { ip: Ip::V4(last), text: format!("10.0.0.{last}") },
        port: 7000,
        kind: DeviceKind::HomePod,
    }
}

fn tray() -> Tray {
    let mut t = Tray::new(Settings::default());
    t.rebuild(vec![speaker("Attic", 1), speaker("Den", 2), speaker("", 3)]);
    t
}

fn names(effects: &Vec<Effect>) -> Vec<&'static str> {
    effects
        .iter()
        .map(|e| match e {
            Effect::StopEngine => "stop",
            Effect::StartEngine(_) => "start",
            Effect::SaveSettings => "save",
            Effect::Show { .. } => "show",
            Effect::RefreshChecks => "refresh",
            Effect::Rescan => "rescan",
            Effect::Exit => "exit",
        })
        .collect()
}

fn shown(effects: &Vec<Effect>) -> (String, IconState) {
    effects
        .iter()
        .find_map(|e| match e {
            Effect::Show { line, icon } => Some((line.clone(), *icon)),
            _ => None,
        })
        .unwrap()
}

#[test]
fn menu_ids_are_understood() {
    assert_eq!(menu_command("quit"), MenuCommand::Quit);
    assert_eq!(menu_command("disconnect"), MenuCommand::Disconnect);
    assert_eq!(menu_command("rescan"), MenuCommand::Rescan);
    assert_eq!(menu_command("mute"), MenuCommand::ToggleMute);
    assert_eq!(menu_command("dev:0"), MenuCommand::Device(0));
    assert_eq!(menu_command("dev:12"), MenuCommand::Device(12));
    assert_eq!(menu_command("dev:none"), MenuCommand::Nothing);
    assert_eq!(menu_command("dev:"), MenuCommand::Nothing);
    assert_eq!(menu_command("status"), MenuCommand::Nothing);
    for p in [LatencyProfile::Gaming, LatencyProfile::Video, LatencyProfile::Music] {
        assert_eq!(menu_command(id_of_latency(p)), MenuCommand::Latency(p));
    }
    for (v, id, label, level) in [
        (VolumePreset::P20, "vol:20", "20%", 0.20f32),
        (VolumePreset::P35, "vol:35", "35%", 0.35),
        (VolumePreset::P50, "vol:50", "50%", 0.50),
        (VolumePreset::P75, "vol:75", "75%", 0.75),
        (VolumePreset::P100, "vol:100", "100%", 1.0),
    ] {
        assert_eq!(v.to_id(), id);
        assert_eq!(v.to_label(), label);
        assert_eq!(v.volume().bits, level.to_bits());
        assert_eq!(menu_command(id), MenuCommand::Volume(v));
    }
    assert_eq!(label_of_latency(LatencyProfile::Gaming), "Gaming (~0.5 s, best for sports)");
    assert_eq!(label_of_latency(LatencyProfile::Video), "Video (~0.6 s, steadier)");
    assert_eq!(label_of_latency(LatencyProfile::Music), "Music (~0.7 s, most robust)");
}

#[test]
fn indices_are_read_as_std_reads_them() {
    for s in [
        "", "+", "0", "007", "+5", "-1", "5x", " 5", "18446744073709551615",
        "18446744073709551616", "99999999999999999999", "++1", "٣",
    ] {
        let chars: Vec<char> = s.chars().collect();
        assert_eq!(parse_index(&chars, 0), s.parse::<usize>().ok(), "{s}");
    }
    for n in [0u64, 9, 10, 101, 90_210, u64::MAX] {
        assert_eq!(to_decimal(n), n.to_string());
    }
}

#[test]
fn menu_shows_each_speaker_or_that_there_is_none() {
    let mut t = Tray::new(Settings::default());
    let entries = t.rebuild(vec![speaker("Attic", 1), speaker("Den", 2)]);
    assert_eq!(entries.len(), 2);
    assert_eq!((entries[1].id.as_str(), entries[1].label.as_str()), ("dev:1", "Den  (HomePod)"));
    assert!(entries[1].enabled);
    let entries = t.rebuild(vec![]);
    assert_eq!(entries.len(), 1);
    assert_eq!(entries[0].id, "dev:none");
    assert_eq!(entries[0].label, "No AirPlay 2 devices found");
    assert!(!entries[0].enabled);
    assert_eq!(t.entries.len(), 1);
    assert_eq!(t.entries[0].address.text, "0.0.0.0");
    assert!(t.on_menu("dev:0").is_empty());
    assert!(!t.active);
}

#[test]
fn click_on_an_entry_connects() {
    let mut t = tray();
    let effects = t.on_menu("dev:1");
    assert_eq!(names(&effects), vec!["start", "save", "refresh"]);
    match &effects[0] {
        Effect::StartEngine(c) => {
            assert_eq!((c.name.as_str(), c.address.text.as_str(), c.port), ("Den", "10.0.0.2", 7000));
            assert_eq!(c.latency, LatencyProfile::Video);
            assert!(c.mute_local);
        }
        other => panic!("{other:?}"),
    }
    assert!(t.active);
    assert_eq!(t.settings.last_ip.as_deref(), Some("10.0.0.2"));
    assert_eq!(t.settings.last_name.as_deref(), Some("Den"));
    let checks = t.checks();
    assert_eq!(checks.devices, vec![false, true, false]);
    assert!(checks.can_disconnect && checks.video && !checks.gaming && !checks.music && checks.mute);
    // The next one takes its place.
    assert_eq!(names(&t.on_menu("dev:0")), vec!["stop", "start", "save", "refresh"]);
    assert_eq!(t.checks().devices, vec![true, false, false]);
    // No entry, or one without a name.
    assert!(t.on_menu("dev:9").is_empty());
    assert!(t.on_menu("dev:2").is_empty());
}

#[test]
fn settings_are_saved_and_reach_the_session() {
    let mut t = tray();
    assert_eq!(names(&t.on_menu("lat:music")), vec!["save", "refresh"]);
    assert!(t.checks().music);
    t.on_menu("dev:0");
    let effects = t.on_menu("vol:75");
    assert_eq!(names(&effects), vec!["save", "refresh", "stop", "start", "save", "refresh"]);
    match &effects[3] {
        Effect::StartEngine(c) => {
            assert_eq!(c.volume.bits, 0.75f32.to_bits());
            assert_eq!(c.latency, LatencyProfile::Music);
            assert_eq!(c.name, "Attic");
        }
        other => panic!("{other:?}"),
    }
    let effects = t.on_menu("mute");
    assert!(!t.settings.mute_local);
    assert!(matches!(&effects[3], Effect::StartEngine(c) if !c.mute_local));
    assert!(!t.checks().mute);
}

#[test]
fn disconnect_and_quit_stop_the_engine() {
    let mut t = tray();
    assert_eq!(names(&t.on_menu("disconnect")), vec!["show", "refresh"]);
    t.on_menu("dev:0");
    let effects = t.on_menu("disconnect");
    assert_eq!(names(&effects), vec!["stop", "show", "refresh"]);
    assert_eq!(shown(&effects), ("Playfruit — idle".to_string(), IconState::Idle));
    assert!(!t.active && !t.checks().can_disconnect);
    assert_eq!(t.checks().devices, vec![false, false, false]);
    assert_eq!(names(&t.on_menu("quit")), vec!["exit"]);
    t.on_menu("dev:0");
    assert_eq!(names(&t.on_menu("quit")), vec!["stop", "exit"]);
    assert_eq!(names(&t.on_menu("rescan")), vec!["rescan"]);
}

#[test]
fn statuses_are_shown() {
    let n = || "Den".to_string();
    let cases = vec![
        (EngineStatus::Connecting { name: n() }, "connecting to Den…", IconState::Busy, false),
        (EngineStatus::Streaming { name: n() }, "streaming to Den", IconState::Streaming, false),
        (
            EngineStatus::StreamingSilent { name: n() },
            "connected to Den — nothing is playing on this PC",
            IconState::Silent,
            false,
        ),
        (
            EngineStatus::Warning { name: n(), message: "look".to_string() },
            "Den: look",
            IconState::Streaming,
            false,
        ),
        (
            EngineStatus::Reconnecting { name: n(), attempt: 4 },
            "reconnecting to Den (attempt 4)…",
            IconState::Busy,
            false,
        ),
        (EngineStatus::Failed("boom".to_string()), "failed: boom", IconState::Failed, true),
        (EngineStatus::Stopped, "idle", IconState::Idle, true),
    ];
    for (status, text, icon, over) in cases {
        let mut t = tray();
        t.on_menu("dev:1");
        let effects = t.on_statuses(&vec![EngineStatus::Connecting { name: n() }, status]);
        assert_eq!(shown(&effects), (format!("Playfruit — {text}"), icon));
        assert_eq!(t.active, !over);
        assert_eq!(names(&effects)[0] == "stop", over);
    }
    let mut t = tray();
    assert!(t.on_statuses(&vec![]).is_empty());
}

/// The integer icon is the one that floating-point distances draw.
#[test]
fn icon_agrees_with_floating_point() {
    for (state, (r, g, b)) in [
        (IconState::Idle, (142u8, 142u8, 147u8)),
        (IconState::Streaming, (52, 199, 89)),
        (IconState::Busy, (255, 204, 0)),
        (IconState::Silent, (168, 224, 182)),
        (IconState::Failed, (255, 59, 48)),
    ] {
        let mut rgba: Vec<u8> = Vec::new();
        let s = ICON_SIZE as i32;
        for y in 0..s {
            for x in 0..s {
                let dx = (x - s / 2) as f32 + 0.5;
                let dy = (y - s / 2) as f32 + 0.5;
                let d = (dx * dx + dy * dy).sqrt();
                if d <= 13.0 {
                    if d >= 11.0 {
                        rgba.extend_from_slice(&[255, 255, 255, 255]);
                    } else {
                        rgba.extend_from_slice(&[r, g, b, 255]);
                    }
                } else if d <= 14.0 {
                    let a = ((14.0 - d) * 255.0) as u8;
                    rgba.extend_from_slice(&[255, 255, 255, a]);
                } else {
                    rgba.extend_from_slice(&[0, 0, 0, 0]);
                }
            }
        }
        assert_eq!(make_icon(state), rgba);
    }
}

#[test]
fn track_clicks_once_a_second() {
    assert_eq!(track_len(12), 650);
    assert_eq!(track_chunk(0, 12), ClickChunk::Click { phase: 0, number: 1 });
    assert_eq!(track_chunk(2, 12), ClickChunk::Click { phase: 2, number: 1 });
    assert_eq!(track_chunk(3, 12), ClickChunk::Silence);
    assert_eq!(track_chunk(551, 12), ClickChunk::Click { phase: 1, number: 12 });
    assert_eq!(track_chunk(600, 12), ClickChunk::Silence);
    assert_eq!(track_chunk(0, 0), ClickChunk::Silence);
}
