//! The command line.

use crate::devices::{Address, Resolution, AIRPLAY_PORT};
use crate::settings::{EngineConfig, LatencyProfile, Volume, FULL_VOLUME, HALF_VOLUME, SIGN_BIT};
use crate::text::{joined, joined3, quoted, same, to_quoted};
use vstd::prelude::*;
use vstd::string::*;

verus! {

/// One argument.
#[derive(Debug)]
pub struct Argument {
    pub text: String,
    /// The number that the text spells as a volume, if it spells one.
    pub number: Option<Volume>,
}

/// What a run streams to, and how.
#[derive(Debug)]
pub struct Args {
    /// An address, or a fragment of a device's name.
    pub target: String,
    /// Mute the PC's own speakers while audio flows.
    pub mute_local: bool,
    pub volume: Volume,
    pub latency: LatencyProfile,
    pub name: String,
}

/// What is asked for.
#[derive(Debug)]
pub enum Command {
    Help,
    Version,
    Stream(Args),
}

/// Why the arguments cannot be understood.
#[derive(Debug)]
pub enum ArgError {
    /// No number follows the volume option.
    BadVolume,
    /// What follows the latency option is no profile.
    BadLatency(Option<String>),
    /// A second target, or an unknown option.
    Unexpected(String),
    NoTarget,
}

/// What has been read of the arguments so far.
#[derive(Debug)]
pub struct Reading {
    pub target: Option<String>,
    pub volume: Volume,
    pub latency: LatencyProfile,
    pub mute_local: bool,
    pub name: Option<String>,
}

/// Where the reading of the arguments ends.
pub enum ReadingEnd {
    Help,
    Version,
    Stream(Reading),
    Fails(ArgError),
}

/// The profile of a name.
pub open spec fn profile_named(s: Seq<char>) -> Option<LatencyProfile> {
    if s == "gaming"@ {
        Some(LatencyProfile::Gaming)
    } else if s == "video"@ {
        Some(LatencyProfile::Video)
    } else if s == "music"@ {
        Some(LatencyProfile::Music)
    } else {
        None
    }
}

fn parse_profile(s: &str) -> (r: Option<LatencyProfile>)
    ensures
        r == profile_named(s@),
{
    if same(s, "gaming") {
        Some(LatencyProfile::Gaming)
    } else if same(s, "video") {
        Some(LatencyProfile::Video)
    } else if same(s, "music") {
        Some(LatencyProfile::Music)
    } else {
        None
    }
}

impl Reading {
    /// Nothing has been read: half volume, the video profile, and the PC's
    /// speakers muted.
    pub open spec fn initial() -> Reading {
        Reading {
            target: None,
            volume: Volume { bits: HALF_VOLUME },
            latency: LatencyProfile::Video,
            mute_local: true,
            name: None,
        }
    }

    /// Where the reading ends that goes on at the argument `i`.
    pub open spec fn read(self, args: Seq<Argument>, i: int) -> ReadingEnd
        decreases args.len() - i,
        when 0 <= i
    {
        if i >= args.len() {
            match self.target {
                Some(_) => ReadingEnd::Stream(self),
                None => ReadingEnd::Fails(ArgError::NoTarget),
            }
        } else {
            let s = args[i].text@;
            let has_value = i + 1 < args.len();
            if s == "--volume"@ || s == "-v"@ {
                if has_value && (args[i + 1].number matches Some(v) && v.is_number()) {
                    (Reading { volume: args[i + 1].number->0, ..self }).read(args, i + 2)
                } else {
                    ReadingEnd::Fails(ArgError::BadVolume)
                }
            } else if s == "--latency"@ || s == "-l"@ {
                if has_value && profile_named(args[i + 1].text@) is Some {
                    (Reading { latency: profile_named(args[i + 1].text@)->0, ..self }).read(
                        args,
                        i + 2,
                    )
                } else {
                    ReadingEnd::Fails(
                        ArgError::BadLatency(
                            if has_value {
                                Some(args[i + 1].text)
                            } else {
                                None
                            },
                        ),
                    )
                }
            } else if s == "--keep-pc-audio"@ {
                (Reading { mute_local: false, ..self }).read(args, i + 1)
            } else if s == "--name"@ || s == "-n"@ {
                if has_value {
                    (Reading { name: Some(args[i + 1].text), ..self }).read(args, i + 2)
                } else {
                    (Reading { name: None, ..self }).read(args, i + 1)
                }
            } else if s == "--help"@ || s == "-h"@ {
                ReadingEnd::Help
            } else if s == "--version"@ || s == "-V"@ {
                ReadingEnd::Version
            } else if self.target is None {
                (Reading { target: Some(args[i].text), ..self }).read(args, i + 1)
            } else {
                ReadingEnd::Fails(ArgError::Unexpected(args[i].text))
            }
        }
    }
}

/// The name to show for a target that was given none.
pub open spec fn shown_name(reading: Reading) -> Seq<char> {
    match reading.name {
        Some(name) => name@,
        None => "HomePod "@ + reading.target->0@,
    }
}

/// What comes of the arguments.
pub open spec fn yields(end: ReadingEnd, r: Result<Command, ArgError>) -> bool {
    match end {
        ReadingEnd::Help => r == Ok::<Command, ArgError>(Command::Help),
        ReadingEnd::Version => r == Ok::<Command, ArgError>(Command::Version),
        ReadingEnd::Fails(e) => r == Err::<Command, ArgError>(e),
        ReadingEnd::Stream(reading) => {
            &&& r matches Ok(Command::Stream(args))
            &&& Some(args.target) == reading.target
            &&& args.mute_local == reading.mute_local
            &&& args.volume == reading.volume.held()
            &&& args.latency == reading.latency
            &&& args.name@ == shown_name(reading)
        },
    }
}

fn finish(reading: Reading) -> (r: Result<Command, ArgError>)
    requires
        reading.volume.is_number(),
    ensures
        yields(
            match reading.target {
                Some(_) => ReadingEnd::Stream(reading),
                None => ReadingEnd::Fails(ArgError::NoTarget),
            },
            r,
        ),
{
    match reading.target {
        None => Err(ArgError::NoTarget),
        Some(target) => {
            let name: String = match reading.name {
                Some(name) => name,
                None => joined("HomePod ", target.as_str()),
            };
            Ok(
                Command::Stream(
                    Args {
                        target,
                        mute_local: reading.mute_local,
                        volume: reading.volume.clamped(),
                        latency: reading.latency,
                        name,
                    },
                ),
            )
        },
    }
}

/// Reads the arguments, from the first to the last. A later option overrides an
/// earlier one; the first thing that is wrong, or the first call for help or
/// for the version, ends it.
pub fn parse_args(args: &Vec<Argument>) -> (r: Result<Command, ArgError>)
    ensures
        yields(Reading::initial().read(args@, 0), r),
{
    let mut reading: Reading = Reading {
        target: None,
        volume: Volume { bits: HALF_VOLUME },
        latency: LatencyProfile::Video,
        mute_local: true,
        name: None,
    };
    let mut i: usize = 0;
    let n: usize = args.len();
    while i < n
        invariant
            n == args.len(),
            i <= n,
            reading.volume.is_number(),
            Reading::initial().read(args@, 0) == reading.read(args@, i as int),
        decreases n - i,
    {
        let s: &str = args[i].text.as_str();
        let has_value: bool = i + 1 < n;
        if same(s, "--volume") || same(s, "-v") {
            if !has_value {
                return Err(ArgError::BadVolume);
            }
            match args[i + 1].number {
                Some(v) => {
                    if !v.numeric() {
                        return Err(ArgError::BadVolume);
                    }
                    reading.volume = v;
                },
                None => {
                    return Err(ArgError::BadVolume);
                },
            }
            i = i + 2;
        } else if same(s, "--latency") || same(s, "-l") {
            if !has_value {
                return Err(ArgError::BadLatency(None));
            }
            match parse_profile(args[i + 1].text.as_str()) {
                Some(p) => {
                    reading.latency = p;
                },
                None => {
                    return Err(ArgError::BadLatency(Some(args[i + 1].text.clone())));
                },
            }
            i = i + 2;
        } else if same(s, "--keep-pc-audio") {
            reading.mute_local = false;
            i = i + 1;
        } else if same(s, "--name") || same(s, "-n") {
            if has_value {
                reading.name = Some(args[i + 1].text.clone());
                i = i + 2;
            } else {
                reading.name = None;
                i = i + 1;
            }
        } else if same(s, "--help") || same(s, "-h") {
            return Ok(Command::Help);
        } else if same(s, "--version") || same(s, "-V") {
            return Ok(Command::Version);
        } else if reading.target.is_none() {
            reading.target = Some(args[i].text.clone());
            i = i + 1;
        } else {
            return Err(ArgError::Unexpected(args[i].text.clone()));
        }
    }
    finish(reading)
}

impl ArgError {
    /// What to tell the user.
    pub open spec fn message(self) -> Seq<char> {
        match self {
            ArgError::BadVolume => "--volume requires a number 0.0-1.0"@,
            ArgError::BadLatency(Some(s)) => "--latency must be gaming|video|music, got Some("@
                + quoted(s@) + ")"@,
            ArgError::BadLatency(None) => "--latency must be gaming|video|music, got None"@,
            ArgError::Unexpected(s) => "unexpected argument: "@ + s@,
            ArgError::NoTarget => "usage: playfruit <ip-or-name> [--volume 0.5] [--latency gaming|video|music]"@,
        }
    }

    /// What to tell the user.
    pub fn to_message(&self) -> (r: String)
        ensures
            r@ == self.message(),
    {
        match self {
            ArgError::BadVolume => "--volume requires a number 0.0-1.0".to_owned(),
            ArgError::BadLatency(got) => match got {
                Some(s) => joined3(
                    "--latency must be gaming|video|music, got Some(",
                    to_quoted(s.as_str()).as_str(),
                    ")",
                ),
                None => "--latency must be gaming|video|music, got None".to_owned(),
            },
            ArgError::Unexpected(s) => joined("unexpected argument: ", s.as_str()),
            ArgError::NoTarget => "usage: playfruit <ip-or-name> [--volume 0.5] [--latency gaming|video|music]".to_owned(),
        }
    }
}

/// What a run of the program is for.
#[derive(Debug)]
pub enum Invocation {
    /// Diagnose the pipeline, against this target if one is given.
    Doctor { target: Option<String> },
    Other(Result<Command, ArgError>),
}

/// Reads the command line: `doctor` in the first place is the diagnosis, and
/// what follows it the target.
pub fn read_command_line(args: &Vec<Argument>) -> (r: Invocation)
    ensures
        if args.len() > 0 && args[0].text@ == "doctor"@ {
            r == (Invocation::Doctor {
                target: if args.len() > 1 {
                    Some(args[1].text)
                } else {
                    None
                },
            })
        } else {
            r matches Invocation::Other(c) && yields(Reading::initial().read(args@, 0), c)
        },
{
    if args.len() > 0 && same(args[0].text.as_str(), "doctor") {
        let target: Option<String> = if args.len() > 1 {
            Some(args[1].text.clone())
        } else {
            None
        };
        return Invocation::Doctor { target };
    }
    Invocation::Other(parse_args(args))
}

/// What came of looking for the target.
#[derive(Debug)]
pub enum Found {
    /// Stream to it; `note` is to be printed first, if there is one.
    Session { config: EngineConfig, note: Option<String> },
    /// There is nothing to stream to, for this reason.
    Nothing { reason: String },
}

/// The session that the arguments make with a device.
pub open spec fn session(args: Args, address: Address, name: String) -> EngineConfig {
    EngineConfig {
        address,
        port: AIRPLAY_PORT,
        name,
        volume: args.volume,
        latency: args.latency,
        mute_local: args.mute_local,
    }
}

/// The session with a target that is an address: it goes by the name that the
/// arguments give it.
pub fn session_by_address(args: Args, address: Address) -> (r: EngineConfig)
    ensures
        r == session(args, address, args.name),
{
    EngineConfig {
        address,
        port: AIRPLAY_PORT,
        name: args.name,
        volume: args.volume,
        latency: args.latency,
        mute_local: args.mute_local,
    }
}

/// The session with a target that is the fragment of a name: it goes by the
/// device's own name.
pub fn session_by_name(args: Args, resolution: Resolution) -> (r: Found)
    ensures
        match resolution {
            Resolution::Found { name, address } => {
                &&& r matches Found::Session { config, note }
                &&& config == session(args, address, name)
                &&& note matches Some(n)
                &&& n@ == "found "@ + name@ + " at "@ + address.text@
            },
            Resolution::NoAddress { name } => {
                &&& r matches Found::Nothing { reason }
                &&& reason@ == "device '"@ + name@ + "' found but has no usable address"@
            },
            Resolution::NoMatch => {
                &&& r matches Found::Nothing { reason }
                &&& reason@ == "no AirPlay 2 device matching '"@ + args.target@
                    + "' found — try 'playfruit doctor' to list devices"@
            },
        },
{
    match resolution {
        Resolution::Found { name, address } => {
            let mut note: String = joined3("found ", name.as_str(), " at ");
            note.append(address.text.as_str());
            Found::Session {
                config: EngineConfig {
                    address,
                    port: AIRPLAY_PORT,
                    name,
                    volume: args.volume,
                    latency: args.latency,
                    mute_local: args.mute_local,
                },
                note: Some(note),
            }
        },
        Resolution::NoAddress { name } => Found::Nothing {
            reason: joined3("device '", name.as_str(), "' found but has no usable address"),
        },
        Resolution::NoMatch => Found::Nothing {
            reason: joined3(
                "no AirPlay 2 device matching '",
                args.target.as_str(),
                "' found — try 'playfruit doctor' to list devices",
            ),
        },
    }
}

/// The text is one of the options.
pub open spec fn is_option(s: Seq<char>) -> bool {
    ||| s == "--volume"@ || s == "-v"@
    ||| s == "--latency"@ || s == "-l"@
    ||| s == "--keep-pc-audio"@
    ||| s == "--name"@ || s == "-n"@
    ||| s == "--help"@ || s == "-h"@
    ||| s == "--version"@ || s == "-V"@
}

/// A target alone is streamed to with every default: half volume, the video
/// profile, the PC's speakers muted, and a name made of the target.
pub proof fn law_target_alone_takes_the_defaults(args: Seq<Argument>, r: Result<Command, ArgError>)
    requires
        args.len() == 1,
        !is_option(args[0].text@),
        yields(Reading::initial().read(args, 0), r),
    ensures
        r matches Ok(Command::Stream(a)) && a.target == args[0].text && a.volume.bits == HALF_VOLUME
            && a.latency == LatencyProfile::Video && a.mute_local && a.name@ == "HomePod "@
            + args[0].text@,
{
    reveal_with_fuel(Reading::read, 2);
}

/// Whatever the arguments, the volume of a stream is between nothing and full.
pub proof fn law_volume_is_in_range(args: Seq<Argument>, r: Result<Command, ArgError>)
    requires
        yields(Reading::initial().read(args, 0), r),
    ensures
        r matches Ok(Command::Stream(a)) ==> a.volume.bits <= FULL_VOLUME || a.volume.bits
            == SIGN_BIT,
{
    lemma_volume_read_is_a_number(Reading::initial(), args, 0);
}

proof fn lemma_volume_read_is_a_number(reading: Reading, args: Seq<Argument>, i: int)
    requires
        0 <= i,
        reading.volume.is_number(),
    ensures
        reading.read(args, i) matches ReadingEnd::Stream(end) ==> end.volume.is_number(),
    decreases args.len() - i,
{
    if i < args.len() {
        let s = args[i].text@;
        let has_value = i + 1 < args.len();
        if s == "--volume"@ || s == "-v"@ {
            if has_value && (args[i + 1].number matches Some(v) && v.is_number()) {
                lemma_volume_read_is_a_number(
                    Reading { volume: args[i + 1].number->0, ..reading },
                    args,
                    i + 2,
                );
            }
        } else if s == "--latency"@ || s == "-l"@ {
            if has_value && profile_named(args[i + 1].text@) is Some {
                lemma_volume_read_is_a_number(
                    Reading { latency: profile_named(args[i + 1].text@)->0, ..reading },
                    args,
                    i + 2,
                );
            }
        } else if s == "--keep-pc-audio"@ {
            lemma_volume_read_is_a_number(Reading { mute_local: false, ..reading }, args, i + 1);
        } else if s == "--name"@ || s == "-n"@ {
            if has_value {
                lemma_volume_read_is_a_number(
                    Reading { name: Some(args[i + 1].text), ..reading },
                    args,
                    i + 2,
                );
            } else {
                lemma_volume_read_is_a_number(Reading { name: None, ..reading }, args, i + 1);
            }
        } else if reading.target is None {
            lemma_volume_read_is_a_number(
                Reading { target: Some(args[i].text), ..reading },
                args,
                i + 1,
            );
        }
    }
}

/// Two targets are never streamed to: after the first, a second is an error.
pub proof fn law_one_target_only(args: Seq<Argument>, reading: Reading, i: int)
    requires
        0 <= i < args.len(),
        reading.target is Some,
        !is_option(args[i].text@),
    ensures
        reading.read(args, i) == ReadingEnd::Fails(ArgError::Unexpected(args[i].text)),
{
}

} // verus!
