//! How the command line is understood, whatever its length.

use crate::args::{
    parse_args, profile_named, read_command_line, session_by_address, session_by_name,     ArgError, Args, Argument, Command, Found, Invocation, Reading, ReadingEnd,
};
use crate::devices::{Address, Resolution};
use crate::settings::{EngineConfig, LatencyProfile, Volume};
use crate::text::quoted;
use vstd::prelude::*;
use vstd::string::*;

verus! {

/// The argument calls for a volume.
pub open spec fn says_volume(a: Argument) -> bool {
    a.text@ == "--volume"@ || a.text@ == "-v"@
}

/// The argument calls for a latency.
pub open spec fn says_latency(a: Argument) -> bool {
    a.text@ == "--latency"@ || a.text@ == "-l"@
}

/// The argument keeps the PC's audio.
pub open spec fn says_keep(a: Argument) -> bool {
    a.text@ == "--keep-pc-audio"@
}

/// The argument calls for a name.
pub open spec fn says_name(a: Argument) -> bool {
    a.text@ == "--name"@ || a.text@ == "-n"@
}

/// The argument calls for help.
pub open spec fn says_help(a: Argument) -> bool {
    a.text@ == "--help"@ || a.text@ == "-h"@
}

/// The argument calls for the version.
pub open spec fn says_version(a: Argument) -> bool {
    a.text@ == "--version"@ || a.text@ == "-V"@
}

/// The argument is no option.
pub open spec fn is_plain(a: Argument) -> bool {
    &&& !says_volume(a)
    &&& !says_latency(a)
    &&& !says_keep(a)
    &&& !says_name(a)
    &&& !says_help(a)
    &&& !says_version(a)
}

/// The argument spells a number.
pub open spec fn spells_number(a: Argument) -> bool {
    a.number matches Some(v) && (v.bits <= 0x7F80_0000 || 0x8000_0000 <= v.bits <= 0xFF80_0000)
}

/// The volume is the one that was asked for, held to the range from nothing to
/// full.
pub open spec fn is_held(asked: Volume, v: Volume) -> bool {
    if asked.bits > 0x8000_0000 {
        v.bits == 0
    } else if 0x3F80_0000 < asked.bits < 0x8000_0000 {
        v.bits == 0x3F80_0000
    } else {
        v == asked
    }
}

/// The argument names this latency.
pub open spec fn names_latency(a: Argument, p: LatencyProfile) -> bool {
    match p {
        LatencyProfile::Gaming => a.text@ == "gaming"@,
        LatencyProfile::Video => a.text@ == "video"@,
        LatencyProfile::Music => a.text@ == "music"@,
    }
}

proof fn lemma_options_differ(a: Argument)
    ensures
        says_volume(a) ==> !says_latency(a) && !says_keep(a) && !says_name(a) && !says_help(a)
            && !says_version(a),
        says_latency(a) ==> !says_keep(a) && !says_name(a) && !says_help(a) && !says_version(a),
        says_keep(a) ==> !says_name(a) && !says_help(a) && !says_version(a),
        says_name(a) ==> !says_help(a) && !says_version(a),
        says_help(a) ==> !says_version(a),
{
    reveal_strlit("--volume");
    reveal_strlit("-v");
    reveal_strlit("--latency");
    reveal_strlit("-l");
    reveal_strlit("--keep-pc-audio");
    reveal_strlit("--name");
    reveal_strlit("-n");
    reveal_strlit("--help");
    reveal_strlit("-h");
    reveal_strlit("--version");
    reveal_strlit("-V");
    assert("-v"@.len() == 2 && "-v"@[1] == 'v');
    assert("-l"@.len() == 2 && "-l"@[1] == 'l');
    assert("-n"@.len() == 2 && "-n"@[1] == 'n');
    assert("-h"@.len() == 2 && "-h"@[1] == 'h');
    assert("-V"@.len() == 2 && "-V"@[1] == 'V');
    assert("--volume"@.len() == 8 && "--volume"@[2] == 'v');
    assert("--latency"@.len() == 9 && "--latency"@[2] == 'l');
    assert("--keep-pc-audio"@.len() == 15);
    assert("--name"@.len() == 6 && "--name"@[2] == 'n');
    assert("--help"@.len() == 6 && "--help"@[2] == 'h');
    assert("--version"@.len() == 9 && "--version"@[2] == 'v');
}

proof fn lemma_profiles(a: Argument)
    ensures
        forall|p: LatencyProfile|
            profile_named(a.text@) == Some(p) <==> #[trigger] names_latency(a, p),
{
    reveal_strlit("gaming");
    reveal_strlit("video");
    reveal_strlit("music");
    assert("gaming"@.len() == 6);
    assert("video"@.len() == 5 && "video"@[0] == 'v');
    assert("music"@.len() == 5 && "music"@[0] == 'm');
}

/// A target alone is streamed to at half volume, with the video profile, the PC's
/// speakers muted, and a name made of the target; and no argument at all is an
/// error.
pub proof fn law_defaults(args: Vec<Argument>, r: Result<Command, ArgError>)
    requires
        call_ensures(parse_args, (&args,), r),
    ensures
        args@.len() == 0 ==> r == Err::<Command, ArgError>(ArgError::NoTarget),
        args@.len() == 1 && is_plain(args@[0]) ==> (r matches Ok(Command::Stream(a)) && a.target
            == args@[0].text && a.volume.bits == 0x3F00_0000 && a.latency == LatencyProfile::Video
            && a.mute_local && a.name@ == "HomePod "@ + args@[0].text@),
{
    reveal_with_fuel(Reading::read, 2);
}

proof fn lemma_append(reading: Reading, args: Seq<Argument>, more: Seq<Argument>, i: int)
    requires
        0 <= i <= args.len(),
        args.len() > 0,
        !says_name(args.last()),
    ensures
        reading.read(args, i) matches ReadingEnd::Stream(end) ==> end.target is Some
            && reading.read(args + more, i) == end.read(args + more, args.len() as int),
        reading.read(args, i) == ReadingEnd::Help ==> reading.read(args + more, i)
            == ReadingEnd::Help,
        reading.read(args, i) == ReadingEnd::Version ==> reading.read(args + more, i)
            == ReadingEnd::Version,
    decreases args.len() - i,
{
    let all = args + more;
    if i < args.len() {
        let a = args[i];
        assert(all[i] == a);
        lemma_options_differ(a);
        if i + 1 < args.len() {
            assert(all[i + 1] == args[i + 1]);
        } else {
            assert(a == args.last());
        }
        if says_volume(a) {
            if i + 1 < args.len() && (args[i + 1].number matches Some(v) && v.is_number()) {
                lemma_append(
                    Reading { volume: args[i + 1].number->0, ..reading },
                    args,
                    more,
                    i + 2,
                );
            }
        } else if says_latency(a) {
            if i + 1 < args.len() && profile_named(args[i + 1].text@) is Some {
                lemma_append(
                    Reading { latency: profile_named(args[i + 1].text@)->0, ..reading },
                    args,
                    more,
                    i + 2,
                );
            }
        } else if says_keep(a) {
            lemma_append(Reading { mute_local: false, ..reading }, args, more, i + 1);
        } else if says_name(a) {
            lemma_append(Reading { name: Some(args[i + 1].text), ..reading }, args, more, i + 2);
        } else if says_help(a) || says_version(a) {
        } else if reading.target is None {
            lemma_append(Reading { target: Some(a.text), ..reading }, args, more, i + 1);
        }
    }
}

/// What an argument at the end of a command line does. A volume, a latency, a
/// name or the keeping of the PC's audio sets that and nothing else, whatever was
/// said before; a call for help or for the version is answered; a volume that is
/// no number, a latency that is none, and a second target are errors, each its
/// own.
pub proof fn law_last_argument_counts(
    args: Vec<Argument>,
    before: Args,
    longer: Vec<Argument>,
    last: Argument,
    r: Result<Command, ArgError>,
)
    requires
        call_ensures(parse_args, (&args,), Ok::<Command, ArgError>(Command::Stream(before))),
        args@.len() > 0,
        !says_name(args@.last()),
        call_ensures(parse_args, (&longer,), r),
    ensures
        longer@.len() == args@.len() + 2 && longer@.take(args@.len() as int) == args@ ==> {
            let option = longer@[args@.len() as int];
            let value = longer@[args@.len() as int + 1];
            &&& says_volume(option) && spells_number(value) ==> (r matches Ok(Command::Stream(a))
                && is_held(value.number->0, a.volume) && a.latency == before.latency && a.mute_local
                == before.mute_local && a.target == before.target && a.name@ == before.name@)
            &&& says_volume(option) && !spells_number(value) ==> r == Err::<Command, ArgError>(
                ArgError::BadVolume,
            )
            &&& forall|p: LatencyProfile|
                says_latency(option) && #[trigger] names_latency(value, p) ==> (r matches Ok(
                    Command::Stream(a),
                ) && a.latency == p && a.volume == before.volume && a.mute_local
                    == before.mute_local && a.target == before.target && a.name@ == before.name@)
            &&& says_latency(option) && (forall|p: LatencyProfile| !names_latency(value, p)) ==> r
                == Err::<Command, ArgError>(ArgError::BadLatency(Some(value.text)))
            &&& says_name(option) ==> (r matches Ok(Command::Stream(a)) && a.name@ == value.text@
                && a.volume == before.volume && a.latency == before.latency && a.mute_local
                == before.mute_local && a.target == before.target)
        },
        longer@ == args@.push(last) ==> {
            &&& says_keep(last) ==> (r matches Ok(Command::Stream(a)) && !a.mute_local && a.volume
                == before.volume && a.latency == before.latency && a.target == before.target
                && a.name@ == before.name@)
            &&& says_help(last) ==> r == Ok::<Command, ArgError>(Command::Help)
            &&& says_version(last) ==> r == Ok::<Command, ArgError>(Command::Version)
            &&& says_volume(last) ==> r == Err::<Command, ArgError>(ArgError::BadVolume)
            &&& says_latency(last) ==> r == Err::<Command, ArgError>(ArgError::BadLatency(None))
            &&& is_plain(last) ==> r == Err::<Command, ArgError>(ArgError::Unexpected(last.text))
        },
{
    let start = Reading::initial();
    let n = args@.len() as int;
    let end = start.read(args@, 0)->Stream_0;
    if longer@.len() == n + 2 && longer@.take(n) == args@ {
        let option = longer@[n];
        let value = longer@[n + 1];
        let more = seq![option, value];
        assert(args@ + more =~= longer@) by {
            assert forall|i: int| 0 <= i < n implies args@[i] == longer@[i] by {
                assert(longer@.take(n)[i] == longer@[i]);
            }
        }
        lemma_append(start, args@, more, 0);
        lemma_options_differ(option);
        lemma_profiles(value);
        reveal_with_fuel(Reading::read, 2);
        assert(value.number matches Some(v) ==> (v.is_number() <==> spells_number(value)));
        if says_latency(option) && profile_named(value.text@) is Some {
            assert(names_latency(value, profile_named(value.text@)->0));
        }
    }
    if longer@ == args@.push(last) {
        let more = seq![last];
        assert(args@ + more =~= longer@);
        lemma_append(start, args@, more, 0);
        lemma_options_differ(last);
        reveal_with_fuel(Reading::read, 2);
    }
}

proof fn lemma_frame(one: Reading, two: Reading, args: Seq<Argument>, i: int)
    requires
        0 <= i,
        one.target == two.target,
    ensures
        ({
            let a = one.read(args, i);
            let b = two.read(args, i);
            &&& !(a is Stream) ==> a == b
            &&& a is Stream ==> {
                &&& b is Stream
                &&& a->Stream_0.target == b->Stream_0.target
                &&& one.volume == two.volume ==> a->Stream_0.volume == b->Stream_0.volume
                &&& one.latency == two.latency ==> a->Stream_0.latency == b->Stream_0.latency
                &&& one.mute_local == two.mute_local ==> a->Stream_0.mute_local
                    == b->Stream_0.mute_local
                &&& one.name == two.name ==> a->Stream_0.name == b->Stream_0.name
                &&& (forall|k: int| i <= k < args.len() ==> !says_volume(#[trigger] args[k]))
                    ==> a->Stream_0.volume == one.volume
                &&& (forall|k: int| i <= k < args.len() ==> !says_latency(#[trigger] args[k]))
                    ==> a->Stream_0.latency == one.latency
                &&& (forall|k: int| i <= k < args.len() ==> !says_keep(#[trigger] args[k]))
                    ==> a->Stream_0.mute_local == one.mute_local
                &&& (forall|k: int| i <= k < args.len() ==> !says_name(#[trigger] args[k]))
                    ==> a->Stream_0.name == one.name
                &&& !one.mute_local ==> !a->Stream_0.mute_local
            }
        }),
    decreases args.len() - i,
{
    if i < args.len() {
        let a = args[i];
        lemma_options_differ(a);
        let has_value = i + 1 < args.len();
        if says_volume(a) {
            if has_value && (args[i + 1].number matches Some(v) && v.is_number()) {
                let volume = args[i + 1].number->0;
                lemma_frame(Reading { volume, ..one }, Reading { volume, ..two }, args, i + 2);
            }
        } else if says_latency(a) {
            if has_value && profile_named(args[i + 1].text@) is Some {
                let latency = profile_named(args[i + 1].text@)->0;
                lemma_frame(Reading { latency, ..one }, Reading { latency, ..two }, args, i + 2);
            }
        } else if says_keep(a) {
            lemma_frame(
                Reading { mute_local: false, ..one },
                Reading { mute_local: false, ..two },
                args,
                i + 1,
            );
        } else if says_name(a) {
            let name = if has_value {
                Some(args[i + 1].text)
            } else {
                None
            };
            let next = if has_value {
                i + 2
            } else {
                i + 1
            };
            lemma_frame(Reading { name, ..one }, Reading { name, ..two }, args, next);
        } else if says_help(a) || says_version(a) {
        } else if one.target is None {
            let target = Some(a.text);
            lemma_frame(Reading { target, ..one }, Reading { target, ..two }, args, i + 1);
        }
    }
}

proof fn lemma_shift(reading: Reading, first: Seq<Argument>, args: Seq<Argument>, i: int)
    requires
        0 <= i,
    ensures
        reading.read(first + args, first.len() + i) == reading.read(args, i),
    decreases args.len() - i,
{
    let all = first + args;
    let n = first.len() as int;
    if i < args.len() {
        let a = args[i];
        assert(all[n + i] == a);
        if i + 1 < args.len() {
            assert(all[n + i + 1] == args[i + 1]);
        }
        lemma_options_differ(a);
        let has_value = i + 1 < args.len();
        if says_volume(a) {
            if has_value && (args[i + 1].number matches Some(v) && v.is_number()) {
                lemma_shift(
                    Reading { volume: args[i + 1].number->0, ..reading },
                    first,
                    args,
                    i + 2,
                );
            }
        } else if says_latency(a) {
            if has_value && profile_named(args[i + 1].text@) is Some {
                lemma_shift(
                    Reading { latency: profile_named(args[i + 1].text@)->0, ..reading },
                    first,
                    args,
                    i + 2,
                );
            }
        } else if says_keep(a) {
            lemma_shift(Reading { mute_local: false, ..reading }, first, args, i + 1);
        } else if says_name(a) {
            if has_value {
                lemma_shift(
                    Reading { name: Some(args[i + 1].text), ..reading },
                    first,
                    args,
                    i + 2,
                );
            } else {
                lemma_shift(Reading { name: None, ..reading }, first, args, i + 1);
            }
        } else if says_help(a) || says_version(a) {
        } else if reading.target is None {
            lemma_shift(Reading { target: Some(a.text), ..reading }, first, args, i + 1);
        }
    }
}

/// What an option at the beginning of a command line does: it sets its own, unless
/// that is set again later, and changes nothing else. So the order of target and
/// options does not matter.
pub proof fn law_first_option_counts_too(
    args: Vec<Argument>,
    before: Args,
    longer: Vec<Argument>,
    r: Result<Command, ArgError>,
)
    requires
        call_ensures(parse_args, (&args,), Ok::<Command, ArgError>(Command::Stream(before))),
        call_ensures(parse_args, (&longer,), r),
    ensures
        longer@.len() == args@.len() + 2 && longer@.skip(2) == args@ ==> {
            let option = longer@[0];
            let value = longer@[1];
            &&& says_volume(option) && spells_number(value) ==> (r matches Ok(Command::Stream(a))
                && ((forall|k: int| 0 <= k < args@.len() ==> !says_volume(#[trigger] args@[k]))
                ==> is_held(value.number->0, a.volume)) && a.latency == before.latency
                && a.mute_local == before.mute_local && a.target == before.target && a.name@
                == before.name@)
            &&& says_volume(option) && !spells_number(value) ==> r == Err::<Command, ArgError>(
                ArgError::BadVolume,
            )
            &&& forall|p: LatencyProfile|
                says_latency(option) && #[trigger] names_latency(value, p) ==> (r matches Ok(
                    Command::Stream(a),
                ) && ((forall|k: int| 0 <= k < args@.len() ==> !says_latency(#[trigger] args@[k]))
                    ==> a.latency == p) && a.volume == before.volume && a.mute_local
                    == before.mute_local && a.target == before.target && a.name@ == before.name@)
            &&& says_latency(option) && (forall|p: LatencyProfile| !names_latency(value, p)) ==> r
                == Err::<Command, ArgError>(ArgError::BadLatency(Some(value.text)))
            &&& says_name(option) ==> (r matches Ok(Command::Stream(a)) && ((forall|k: int|
                0 <= k < args@.len() ==> !says_name(#[trigger] args@[k])) ==> a.name@
                == value.text@) && a.volume == before.volume && a.latency == before.latency
                && a.mute_local == before.mute_local && a.target == before.target)
        },
        longer@.len() == args@.len() + 1 && longer@.skip(1) == args@ ==> {
            let option = longer@[0];
            &&& says_keep(option) ==> (r matches Ok(Command::Stream(a)) && !a.mute_local && a.volume
                == before.volume && a.latency == before.latency && a.target == before.target
                && a.name@ == before.name@)
            &&& says_help(option) ==> r == Ok::<Command, ArgError>(Command::Help)
            &&& says_version(option) ==> r == Ok::<Command, ArgError>(Command::Version)
        },
{
    let start = Reading::initial();
    if longer@.len() == args@.len() + 2 && longer@.skip(2) == args@ {
        let option = longer@[0];
        let value = longer@[1];
        let first = seq![option, value];
        assert(longer@ =~= first + args@) by {
            assert forall|i: int| 2 <= i < longer@.len() implies longer@[i] == args@[i - 2] by {
                assert(longer@.skip(2)[i - 2] == longer@[i]);
            }
        }
        lemma_options_differ(option);
        lemma_profiles(value);
        assert(value.number matches Some(v) ==> (v.is_number() <==> spells_number(value)));
        if says_volume(option) {
            let next = Reading { volume: value.number->0, ..start };
            lemma_shift(next, first, args@, 0);
            lemma_frame(next, start, args@, 0);
        } else if says_latency(option) {
            if profile_named(value.text@) is Some {
                assert(names_latency(value, profile_named(value.text@)->0));
            }
            let next = Reading { latency: profile_named(value.text@)->0, ..start };
            lemma_shift(next, first, args@, 0);
            lemma_frame(next, start, args@, 0);
        } else if says_name(option) {
            let next = Reading { name: Some(value.text), ..start };
            lemma_shift(next, first, args@, 0);
            lemma_frame(next, start, args@, 0);
        }
    }
    if longer@.len() == args@.len() + 1 && longer@.skip(1) == args@ {
        let option = longer@[0];
        let first = seq![option];
        assert(longer@ =~= first + args@) by {
            assert forall|i: int| 1 <= i < longer@.len() implies longer@[i] == args@[i - 1] by {
                assert(longer@.skip(1)[i - 1] == longer@[i]);
            }
        }
        lemma_options_differ(option);
        if says_keep(option) {
            let next = Reading { mute_local: false, ..start };
            lemma_shift(next, first, args@, 0);
            lemma_frame(next, start, args@, 0);
        }
    }
}

/// `doctor` in the first place is the diagnosis, of the target that follows it, if
/// one does; every other command line is what its arguments say.
pub proof fn law_doctor_comes_first(
    args: Vec<Argument>,
    r: Invocation,
    parsed: Result<Command, ArgError>,
)
    requires
        call_ensures(read_command_line, (&args,), r),
        call_ensures(parse_args, (&args,), parsed),
    ensures
        r is Doctor <==> args@.len() > 0 && args@[0].text@ == "doctor"@,
        r matches Invocation::Doctor { target } ==> target == if args@.len() > 1 {
            Some(args@[1].text)
        } else {
            None
        },
        r matches Invocation::Other(c) ==> match parsed {
            Ok(Command::Stream(p)) => c matches Ok(Command::Stream(a)) && a.target == p.target
                && a.volume == p.volume && a.latency == p.latency && a.mute_local == p.mute_local
                && a.name@ == p.name@,
            _ => c == parsed,
        },
{
}

/// A session by address has that address, the AirPlay port, and all that the
/// arguments say.
pub proof fn law_session_by_address(args: Args, address: Address, r: EngineConfig)
    requires
        call_ensures(session_by_address, (args, address), r),
    ensures
        r.address == address,
        r.port == 7000,
        r.name == args.name,
        r.volume == args.volume,
        r.latency == args.latency,
        r.mute_local == args.mute_local,
{
}

/// A session by name has the address and the name of the device that was found,
/// the AirPlay port, and the arguments' volume, latency and mute. Where nothing
/// can be streamed to, the reason tells the device, or what was looked for.
pub proof fn law_session_by_name(args: Args, resolution: Resolution, r: Found)
    requires
        call_ensures(session_by_name, (args, resolution), r),
    ensures
        r is Session <==> resolution is Found,
        resolution matches Resolution::Found { name, address } ==> (r matches Found::Session {
            config,
            note,
        } && config.address == address && config.port == 7000 && config.name == name
            && config.volume == args.volume && config.latency == args.latency && config.mute_local
            == args.mute_local && (note matches Some(n) && n@ == "found "@ + name@ + " at "@
            + address.text@)),
        resolution matches Resolution::NoAddress { name } ==> (r matches Found::Nothing { reason }
            && reason@ == "device '"@ + name@ + "' found but has no usable address"@),
        resolution is NoMatch ==> (r matches Found::Nothing { reason } && reason@
            == "no AirPlay 2 device matching '"@ + args.target@
            + "' found — try 'playfruit doctor' to list devices"@),
{
}

/// What the user is told of each error.
pub proof fn law_errors_are_told(e: ArgError, r: String)
    requires
        call_ensures(ArgError::to_message, (&e,), r),
    ensures
        r@ == match e {
            ArgError::BadVolume => "--volume requires a number 0.0-1.0"@,
            ArgError::BadLatency(Some(s)) => "--latency must be gaming|video|music, got Some("@
                + quoted(s@) + ")"@,
            ArgError::BadLatency(None) => "--latency must be gaming|video|music, got None"@,
            ArgError::Unexpected(s) => "unexpected argument: "@ + s@,
            ArgError::NoTarget => "usage: playfruit <ip-or-name> [--volume 0.5] [--latency gaming|video|music]"@,
        },
{
}

} // verus!
