use playfruit::args::{
    parse_args, read_command_line, session_by_address, session_by_name, ArgError, Args, Argument,
    Command, Found, Invocation,
};
use playfruit::devices::{Address, Ip, Resolution};
use playfruit::settings::{config_base, ConfigBase, LatencyProfile, Settings, Volume};

fn arguments(texts: &[&str]) -> Vec<Argument> {
    texts
        .iter()
        .map(|s| Argument {
            text: s.to_string(),
            number: s.parse::<f32>().ok().map(|v| Volume { bits: v.to_bits() }),
        })
        .collect()
}

fn stream(texts: &[&str]) -> Args {
    match parse_args(&arguments(texts)) {
        Ok(Command::Stream(a)) => a,
        other => panic!("{other:?}"),
    }
}

fn message(texts: &[&str]) -> String {
    match parse_args(&arguments(texts)) {
        Err(e) => e.to_message(),
        other => panic!("{other:?}"),
    }
}

fn level(a: &Args) -> f32 {
    f32::from_bits(a.volume.bits)
}

#[test]
fn target_alone_takes_the_defaults() {
    let a = stream(&["kitchen"]);
    assert_eq!(a.target, "kitchen");
    assert_eq!(level(&a), 0.5);
    assert_eq!(a.latency, LatencyProfile::Video);
    assert!(a.mute_local);
    assert_eq!(a.name, "HomePod kitchen");
}

#[test]
fn options_are_read() {
    let a = stream(&[
        "--volume", "0.25", "-l", "music", "10.0.0.1", "--keep-pc-audio", "-n", "Den",
    ]);
    assert_eq!(a.target, "10.0.0.1");
    assert_eq!(level(&a), 0.25);
    assert_eq!(a.latency, LatencyProfile::Music);
    assert!(!a.mute_local);
    assert_eq!(a.name, "Den");
    let a = stream(&["x", "-v", "0.1", "-v", "0.2", "--latency", "gaming", "--name"]);
    assert_eq!(level(&a), 0.2);
    assert_eq!(a.latency, LatencyProfile::Gaming);
    // A name option without a name is no name.
    assert_eq!(a.name, "HomePod x");
    let a = stream(&["x", "--latency", "video", "--name", "--help"]);
    assert_eq!(a.name, "--help");
}

#[test]
fn volume_is_held_to_its_range() {
    for s in ["0", "-0", "0.3", "1", "1.0001", "7", "-1e-9", "-5", "inf", "-inf", "1e-40"] {
        let v: f32 = s.parse().unwrap();
        let got = level(&stream(&["x", "-v", s]));
        assert_eq!(got.to_bits(), v.clamp(0.0, 1.0).to_bits(), "{s}");
    }
    // What is no number is none.
    for s in ["NaN", "-NaN", "nan"] {
        assert!(s.parse::<f32>().unwrap().is_nan());
        assert!(matches!(parse_args(&arguments(&["x", "-v", s])), Err(ArgError::BadVolume)));
    }
    assert!(!Volume { bits: f32::NAN.to_bits() }.numeric());
    assert!(Volume { bits: f32::NEG_INFINITY.to_bits() }.numeric());
    assert_eq!(Volume { bits: 2.0f32.to_bits() }.clamped().bits, 1.0f32.to_bits());
}

#[test]
fn help_and_version_come_before_later_errors() {
    assert!(matches!(parse_args(&arguments(&["--help", "-v"])), Ok(Command::Help)));
    assert!(matches!(parse_args(&arguments(&["a", "-h"])), Ok(Command::Help)));
    assert!(matches!(parse_args(&arguments(&["-V"])), Ok(Command::Version)));
    assert!(matches!(parse_args(&arguments(&["--version"])), Ok(Command::Version)));
}

#[test]
fn errors_are_told() {
    assert_eq!(message(&["x", "--volume", "loud"]), "--volume requires a number 0.0-1.0");
    assert_eq!(message(&["x", "-v"]), "--volume requires a number 0.0-1.0");
    assert_eq!(
        message(&["-l", "fa\"st", "x"]),
        "--latency must be gaming|video|music, got Some(\"fa\\\"st\")"
    );
    assert_eq!(message(&["-l"]), "--latency must be gaming|video|music, got None");
    assert_eq!(message(&["x", "y"]), "unexpected argument: y");
    assert_eq!(
        message(&["-v", "1"]),
        "usage: playfruit <ip-or-name> [--volume 0.5] [--latency gaming|video|music]"
    );
    assert!(matches!(parse_args(&arguments(&[])), Err(ArgError::NoTarget)));
    // The first thing that is wrong is told.
    assert_eq!(message(&["x", "y", "-l"]), "unexpected argument: y");
}

#[test]
fn doctor_comes_first_or_is_a_target() {
    assert!(matches!(read_command_line(&arguments(&["doctor"])),
        Invocation::Doctor { target: None }));
    assert!(matches!(read_command_line(&arguments(&["doctor", "den", "-l"])),
        Invocation::Doctor { target: Some(ref t) } if t == "den"));
    assert!(matches!(read_command_line(&arguments(&["-v", "1", "doctor"])),
        Invocation::Other(Ok(Command::Stream(ref a))) if a.target == "doctor"));
    assert!(matches!(read_command_line(&arguments(&[])),
        Invocation::Other(Err(ArgError::NoTarget))));
}

fn address() -> Address {
    Address { ip: Ip::V4(0x0A00_0001), text: "10.0.0.1".to_string() }
}

#[test]
fn session_goes_by_the_given_or_the_found_name() {
    let c = session_by_address(stream(&["10.0.0.1", "-v", "1", "-l", "music"]), address());
    assert_eq!((c.name.as_str(), c.port), ("HomePod 10.0.0.1", 7000));
    assert_eq!(c.address.text, "10.0.0.1");
    assert_eq!(c.volume.bits, 1.0f32.to_bits());
    assert_eq!(c.latency, LatencyProfile::Music);
    assert!(c.mute_local);
    let found = Resolution::Found { name: "Kitchen".to_string(), address: address() };
    match session_by_name(stream(&["kit", "-n", "other", "--keep-pc-audio"]), found) {
        Found::Session { config, note } => {
            assert_eq!(config.name, "Kitchen");
            assert!(!config.mute_local);
            assert_eq!(note.as_deref(), Some("found Kitchen at 10.0.0.1"));
        }
        other => panic!("{other:?}"),
    }
    let nowhere = Resolution::NoAddress { name: "Kitchen".to_string() };
    assert!(matches!(session_by_name(stream(&["kit"]), nowhere),
        Found::Nothing { ref reason }
            if reason == "device 'Kitchen' found but has no usable address"));
    assert!(matches!(session_by_name(stream(&["kit"]), Resolution::NoMatch),
        Found::Nothing { ref reason } if reason == "no AirPlay 2 device matching 'kit' found — \
            try 'playfruit doctor' to list devices"));
}

#[test]
fn settings_of_a_first_run() {
    let s = Settings::default();
    assert_eq!(f32::from_bits(s.volume.bits), 0.5);
    assert_eq!(s.latency, LatencyProfile::Video);
    assert!(s.mute_local);
    assert!(s.last_ip.is_none() && s.last_name.is_none());
}

#[test]
fn settings_have_a_place() {
    assert_eq!(config_base(true, true), ConfigBase::AppData);
    assert_eq!(config_base(true, false), ConfigBase::AppData);
    assert_eq!(config_base(false, true), ConfigBase::HomeConfig);
    assert_eq!(config_base(false, false), ConfigBase::Temporary);
}
