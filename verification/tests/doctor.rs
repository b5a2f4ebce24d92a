use crossbeam_channel::bounded;
use playfruit::capture::Probe;
use playfruit::devices::{Address, Device, DeviceKind, Ip};
use playfruit::doctor::{
    capture_checks, capture_unopened, examine_devices, firewall_check, firewall_skipped,
    judge_profiles, judge_rules, profile_check, reachability_check, sample_capture, session_check,
    word_to_pick, CaptureTally, Check, Level, Report,
};
use playfruit::pcm::CapturedFrame;
use playfruit::text::is_space;

const GOOD_RULES: &str = "Rule Name: Playfruit\r\n  Profiles:   Domain,Private,Public\r\n\
    Program: C:\\playfruit\\playfruit.exe\r\n";

fn bytes(s: &str) -> Option<Vec<u8>> {
    Some(s.as_bytes().to_vec())
}

fn device(name: &str, last: u32, kind: DeviceKind) -> Device {
    Device {
        name: name.to_string(),
        addresses: vec![Address { ip: Ip::V4(last), text: format!("10.0.0.{last}") }],
        supports_airplay2: true,
        kind,
    }
}

fn line(c: &Check) -> String {
    c.line()
}

#[test]
fn firewall_rules_that_cover_everything_pass() {
    let c = firewall_check(&bytes(GOOD_RULES), "C:\\playfruit");
    assert_eq!(
        line(&c),
        "[PASS] firewall-rules — Playfruit rules present, all profiles, program path matches"
    );
    let any = GOOD_RULES.replace("Domain,Private,Public", "Any");
    assert_eq!(firewall_check(&bytes(&any), "C:\\playfruit").level, Level::Pass);
    // A listing that names no profile has no rule that falls short.
    assert_eq!(firewall_check(&bytes("C:\\playfruit"), "C:\\playfruit").level, Level::Pass);
}

#[test]
fn firewall_rules_that_fall_short_fail() {
    let narrow = GOOD_RULES.replace("Domain,Private,Public", "Domain,Private");
    let c = firewall_check(&bytes(&narrow), "C:\\playfruit");
    assert_eq!(c.level, Level::Fail);
    assert!(c.detail.starts_with("rules exist but do NOT cover all network profiles"));
    // One bad rule among good ones is enough; the word in another line does not count.
    let mixed = format!("{GOOD_RULES}Any\n\tProfiles: Public\n");
    assert_eq!(firewall_check(&bytes(&mixed), "C:\\playfruit").level, Level::Fail);
    let c = firewall_check(&bytes(GOOD_RULES), "D:\\elsewhere");
    assert_eq!(c.level, Level::Fail);
    assert_eq!(
        c.detail,
        "rules exist but their program path does not match this exe's folder (D:\\elsewhere) — \
         they cover a different/moved copy. Fix: re-run 'Enable firewall access'."
    );
    let c = firewall_check(&None, "C:\\playfruit");
    assert_eq!(c.level, Level::Fail);
    assert!(c.detail.starts_with("no 'Playfruit' firewall rule found."));
    assert_eq!(judge_rules(false, GOOD_RULES, "C:\\playfruit").level, Level::Fail);
    assert_eq!(judge_rules(true, GOOD_RULES, "C:\\playfruit").level, Level::Pass);
}

#[test]
fn firewall_output_need_not_be_utf8() {
    let mut raw = GOOD_RULES.as_bytes().to_vec();
    raw.push(0xFF);
    assert_eq!(firewall_check(&Some(raw), "C:\\playfruit").level, Level::Pass);
    assert_eq!(line(&firewall_skipped()), "[SKIP] firewall-rules — Windows-only check");
}

#[test]
fn network_profiles_are_listed() {
    let c = profile_check(&bytes(" \r\nPublic\nPrivate\r\n\u{3000}"));
    assert_eq!(line(&c), "[INFO] network-profile — active profile(s): Public, Private");
    let c = profile_check(&bytes(" \r\n "));
    assert_eq!(
        line(&c),
        "[WARN] network-profile — could not determine the active network profile"
    );
    let c = profile_check(&None);
    assert_eq!(
        line(&c),
        "[WARN] network-profile — could not query Get-NetConnectionProfile"
    );
    assert_eq!(judge_profiles(&vec!['a', '\n', 'b']).detail, "active profile(s): a, b");
}

#[test]
fn capture_is_judged_by_its_tally() {
    let tally = |frames, audible_chunks, died| CaptureTally { frames, audible_chunks, died };
    let c = capture_checks(&tally(220_500, 3, false));
    assert_eq!(c.len(), 1);
    assert_eq!(line(&c[0]), "[PASS] capture — 44100 frames/s (expect ~44100), real audio present");
    let c = capture_checks(&tally(12, 0, false));
    assert_eq!(c[0].level, Level::Warn);
    assert!(c[0].detail.starts_with("2 frames/s captured but ALL silent"));
    let c = capture_checks(&tally(13, 0, false));
    assert!(c[0].detail.starts_with("3 frames/s captured"));
    let c = capture_checks(&tally(0, 0, true));
    assert_eq!(c.len(), 2);
    assert_eq!(c[0].level, Level::Fail);
    assert!(c[0].detail.starts_with("capture thread died mid-test"));
    assert_eq!(c[1].level, Level::Warn);
    assert!(c[1].detail.starts_with("capture is alive but delivered 0 frames"));
    assert_eq!(
        line(&capture_unopened("busy")),
        "[FAIL] capture — could not open loopback capture: busy"
    );
}

/// The rounded rate is the one that the floating-point format prints.
#[test]
fn frame_rate_is_rounded_as_printed() {
    for frames in (1u64..200).chain([220_499, 220_500, 220_502, 220_503, 1_000_003]) {
        let c = capture_checks(&CaptureTally { frames, audible_chunks: 1, died: false });
        let per_sec = frames as f64 / 5.0;
        assert_eq!(
            c[0].detail,
            format!("{per_sec:.0} frames/s (expect ~44100), real audio present")
        );
    }
}

/// White space is what std says it is, for every character.
#[test]
fn white_space_agrees_with_std() {
    let mut count = 0;
    for n in 0..=0x10FFFFu32 {
        if let Some(c) = char::from_u32(n) {
            assert_eq!(is_space(c), c.is_whitespace(), "{n:#x}");
            count += is_space(c) as u32;
        }
    }
    assert_eq!(count, 25);
}

#[test]
fn sampling_counts_until_the_capture_goes_away() {
    let (tx, rx) = bounded::<CapturedFrame>(8);
    let chunk = |samples: Vec<i16>, channels| CapturedFrame { samples, channels, sample_rate: 44_100 };
    tx.send(chunk(vec![0; 10], 2)).unwrap();
    tx.send(chunk(vec![1; 9], 2)).unwrap();
    tx.send(chunk(vec![1; 9], 0)).unwrap();
    drop(tx);
    let tally = sample_capture(&mut Probe::new(rx));
    assert_eq!(tally, CaptureTally { frames: 9, audible_chunks: 2, died: true });
}

#[test]
fn sampling_ends_after_five_seconds() {
    let (_tx, rx) = bounded::<CapturedFrame>(8);
    let start = std::time::Instant::now();
    let tally = sample_capture(&mut Probe::new(rx));
    assert_eq!(tally, CaptureTally::new());
    let secs = start.elapsed().as_secs_f64();
    assert!(secs >= 5.0 && secs < 8.0, "{secs}");
}

fn lines(checks: &Vec<Check>) -> Vec<String> {
    checks.iter().map(line).collect()
}

#[test]
fn lone_homepod_is_tested() {
    let devices = vec![
        device("Kitchen", 1, DeviceKind::HomePod),
        device("TV", 2, DeviceKind::AppleTv),
        device("Mac", 3, DeviceKind::OtherAirPlay),
    ];
    let (checks, address) = examine_devices(&devices, &None, None);
    assert_eq!(
        lines(&checks),
        vec![
            "[PASS] discovery — Kitchen (HomePod, 10.0.0.1); TV (AppleTv, 10.0.0.2); \
             Mac (OtherAirPlay, 10.0.0.3)",
            "[INFO] target — one HomePod found — testing against Kitchen (10.0.0.1)",
        ]
    );
    assert_eq!(address.unwrap().ip, Ip::V4(1));
}

#[test]
fn several_homepods_are_left_alone() {
    let devices = vec![
        device(" Living Room", 1, DeviceKind::HomePod),
        device("Den", 2, DeviceKind::HomePod),
    ];
    let (checks, address) = examine_devices(&devices, &None, None);
    assert!(address.is_none());
    assert_eq!(
        lines(&checks)[1..],
        [
            "[INFO] target — 2 HomePods found — re-run as 'playfruit doctor <name>' \
             (e.g. doctor living) to pick one for the live clock-sync test",
            "[SKIP] session — multiple HomePods — pick one by name to run the live test",
        ]
    );
    assert_eq!(word_to_pick("Ground FLOOR"), "ground");
    assert_eq!(word_to_pick(" \u{3000}"), "kitchen");
}

#[test]
fn nothing_found_is_a_failure_and_a_skip() {
    let (checks, address) = examine_devices(&vec![], &None, None);
    assert!(address.is_none());
    assert_eq!(checks.len(), 2);
    assert_eq!(checks[0].level, Level::Fail);
    assert_eq!(line(&checks[1]), "[SKIP] session — no HomePod found to test against");
}

#[test]
fn target_can_be_named_or_addressed() {
    let devices = vec![
        device("Kitchen", 1, DeviceKind::HomePod),
        device("Den", 2, DeviceKind::OtherAirPlay),
    ];
    let (checks, address) = examine_devices(&devices, &Some("DEN".to_string()), None);
    assert_eq!(line(&checks[1]), "[INFO] target — matched 'DEN' to Den (10.0.0.2)");
    assert_eq!(address.unwrap().text, "10.0.0.2");
    let (checks, address) = examine_devices(&devices, &Some("attic".to_string()), None);
    assert_eq!(checks.len(), 2);
    assert_eq!(
        line(&checks[1]),
        "[FAIL] target — no discovered device matches 'attic' — see the discovery list above"
    );
    assert!(address.is_none());
    let given = Address { ip: Ip::V4(77), text: "0.0.0.77".to_string() };
    let (checks, address) = examine_devices(&devices, &Some("0.0.0.77".to_string()), Some(given));
    assert_eq!(checks.len(), 1);
    assert_eq!(address.unwrap().ip, Ip::V4(77));
}

#[test]
fn reachability_and_session_are_judged() {
    assert_eq!(
        line(&reachability_check("10.0.0.1", &None)),
        "[PASS] reachability — 10.0.0.1:7000 reachable"
    );
    assert_eq!(
        line(&reachability_check("10.0.0.1", &Some("refused".to_string()))),
        "[FAIL] reachability — cannot reach 10.0.0.1:7000 — refused"
    );
    assert_eq!(
        line(&session_check(&Ok(Some(31)))),
        "[PASS] clock-sync — 31 timing requests answered in 12s — receiver can sync; \
         audio path is healthy"
    );
    for queries in [Some(0), None] {
        let c = session_check(&Ok(queries));
        assert_eq!((c.level, c.name.as_str()), (Level::Fail, "clock-sync"));
        assert!(c
            .detail
            .starts_with("0 timing requests received in 12s — the HomePod CANNOT reach"));
    }
    assert_eq!(
        line(&session_check(&Err("no route".to_string()))),
        "[FAIL] session — could not establish a session: no route"
    );
}

#[test]
fn diagnosis_counts_the_failures() {
    let mut report = Report::new();
    assert_eq!(report.add(firewall_skipped()), "[SKIP] firewall-rules — Windows-only check");
    report.add(profile_check(&None));
    assert_eq!(report.exit_code(), 0);
    assert_eq!(
        report.diagnosis(),
        "DIAGNOSIS: all checks passed. If audio is still silent, note the capture check's \
         warning text."
    );
    report.add(capture_unopened("busy"));
    report.add(session_check(&Ok(Some(0))));
    assert_eq!(report.failures(), 2);
    assert_eq!(report.exit_code(), 1);
    assert_eq!(
        report.diagnosis(),
        "DIAGNOSIS: 2 failing check(s) — fix the FIRST failure above; later checks often \
         depend on it."
    );
}
