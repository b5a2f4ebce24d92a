//! What the diagnosis finds, in plain words.

use crate::capture::Reception;
use crate::devices::{reachable, Address, Device, DeviceKind, Speaker};
use crate::doctor::{
    all_profiles_covered, capture_checks, capture_unopened, check_views, choose_target,
    count_failures, default_target, device_checks, discovery_check, discovery_verdict,
    examine_devices, firewall_check, firewall_skipped, frames_per_second, homepods, homepods_of,
    is_sampling, judge_profiles, judge_rules, listing, listing_entry, named_target, pick_word,
    profile_check, reachability_check, rules_cover_all, sampling_steps, say_several, session_check,
    session_skipped, word_to_pick, CaptureTally, Check, Level, Report, Target,
};
use crate::laws::devices::{
    can_stream, is_pick, is_speaker_of, lemma_reachable, lemma_speakers_named, names, streamable,
};
use crate::laws::text::{
    lemma_fragment_reads, lemma_left_trim, lemma_right_trim, lemma_word, reads_in,
};
use crate::numbers::decimal;
use crate::rig::Deed;
use crate::text::{left_trimmed, lines, lossy, lowercase, whitespace};
use std::time::Instant;
use vstd::prelude::*;
use vstd::string::*;

verus! {

/// HomePods.
pub open spec fn is_homepod() -> spec_fn(Speaker) -> bool {
    |s: Speaker| s.kind == DeviceKind::HomePod
}

proof fn lemma_homepods(speakers: Seq<Speaker>)
    ensures
        homepods(speakers) == speakers.filter(is_homepod()),
    decreases speakers.len(),
{
    reveal(Seq::filter);
    if speakers.len() > 0 {
        lemma_homepods(speakers.drop_last());
    } else {
        assert(homepods(speakers) =~= speakers.filter(is_homepod()));
    }
}

/// The HomePods are exactly the speakers of that kind, each as often as it stands
/// there, and in the same order.
pub proof fn law_homepods_are_all_of_them(speakers: Vec<Speaker>, r: Vec<Speaker>)
    requires
        call_ensures(homepods_of, (&speakers,), r),
    ensures
        r@ == speakers@.filter(is_homepod()),
        forall|s: Speaker| #[trigger]
            r@.contains(s) <==> speakers@.contains(s) && s.kind == DeviceKind::HomePod,
        r@.len() == 1 <==> is_only(speakers@, is_homepod()),
        r@.len() == 0 <==> is_none(speakers@, is_homepod()),
{
    lemma_homepods(speakers@);
    lemma_counting(speakers@, is_homepod());
    assert forall|s: Speaker| #[trigger] r@.contains(s) <==> speakers@.contains(s) && s.kind
        == DeviceKind::HomePod by {
        broadcast use vstd::seq_lib::group_filter_ensures;

        if r@.contains(s) {
            let k = r@.index_of(s);
            assert(is_homepod()(r@[k]));
            lemma_filter_holds(speakers@, is_homepod(), s);
        }
        if speakers@.contains(s) && s.kind == DeviceKind::HomePod {
            let k = speakers@.index_of(s);
            assert(speakers@.filter(is_homepod()).contains(speakers@[k]));
        }
    }
}

/// There is exactly one place that `keep` wants.
pub open spec fn is_only<T>(s: Seq<T>, keep: spec_fn(T) -> bool) -> bool {
    exists|i: int|
        0 <= i < s.len() && keep(#[trigger] s[i]) && forall|j: int|
            0 <= j < s.len() && keep(#[trigger] s[j]) ==> j == i
}

/// There is no place that `keep` wants.
pub open spec fn is_none<T>(s: Seq<T>, keep: spec_fn(T) -> bool) -> bool {
    forall|j: int| 0 <= j < s.len() ==> !keep(#[trigger] s[j])
}

proof fn lemma_counting<T>(s: Seq<T>, keep: spec_fn(T) -> bool)
    ensures
        s.filter(keep).len() == 0 <==> is_none(s, keep),
        s.filter(keep).len() == 1 <==> is_only(s, keep),
        forall|i: int|
            is_only(s, keep) && 0 <= i < s.len() && keep(#[trigger] s[i]) ==> s.filter(keep)[0]
                == s[i],
    decreases s.len(),
{
    reveal(Seq::filter);
    if s.len() > 0 {
        let init = s.drop_last();
        let n = s.len() - 1;
        lemma_counting(init, keep);
        assert(s[n] == s.last());
        assert(forall|j: int| 0 <= j < n ==> init[j] == #[trigger] s[j]);
        if is_none(init, keep) {
            assert forall|j: int| 0 <= j < n implies !keep(#[trigger] s[j]) by {
                assert(!keep(init[j]));
            }
            if keep(s[n]) {
                assert(is_only(s, keep));
            }
        } else {
            let k = choose|k: int| 0 <= k < init.len() && keep(#[trigger] init[k]);
            assert(keep(s[k]));
            assert(!is_none(s, keep));
            if is_only(init, keep) {
                let i = choose|i: int|
                    0 <= i < init.len() && keep(#[trigger] init[i]) && forall|j: int|
                        0 <= j < init.len() && keep(#[trigger] init[j]) ==> j == i;
                assert(keep(s[i]));
                if !keep(s[n]) {
                    assert forall|j: int| 0 <= j < s.len() && keep(#[trigger] s[j]) implies j == i by {
                        if j < n {
                            assert(keep(init[j]));
                        }
                    }
                    assert(is_only(s, keep));
                    assert forall|m: int|
                        0 <= m < s.len() && keep(#[trigger] s[m]) implies s.filter(keep)[0] == s[m] by {
                        assert(m == i);
                        assert(init.filter(keep)[0] == init[i]);
                    }
                } else {
                    assert(!is_only(s, keep)) by {
                        if is_only(s, keep) {
                            let m = choose|m: int|
                                0 <= m < s.len() && keep(#[trigger] s[m]) && forall|j: int|
                                    0 <= j < s.len() && keep(#[trigger] s[j]) ==> j == m;
                            assert(i == m && n == m);
                        }
                    }
                }
            } else {
                assert(!is_only(s, keep)) by {
                    if is_only(s, keep) {
                        let m = choose|m: int|
                            0 <= m < s.len() && keep(#[trigger] s[m]) && forall|j: int|
                                0 <= j < s.len() && keep(#[trigger] s[j]) ==> j == m;
                        assert(k == m);
                        assert(keep(init[m]));
                        assert forall|j: int|
                            0 <= j < init.len() && keep(#[trigger] init[j]) implies j == m by {
                            assert(keep(s[j]));
                        }
                        assert(is_only(init, keep));
                    }
                }
            }
        }
    }
}

proof fn lemma_filter_holds<T>(s: Seq<T>, keep: spec_fn(T) -> bool, x: T)
    requires
        s.filter(keep).contains(x),
    ensures
        s.contains(x),
    decreases s.len(),
{
    reveal(Seq::filter);
    if s.len() > 0 {
        let init = s.drop_last();
        if init.filter(keep).contains(x) {
            lemma_filter_holds(init, keep, x);
            let k = init.index_of(x);
            assert(s[k] == x);
        } else {
            let k = s.filter(keep).index_of(x);
            if k < init.filter(keep).len() {
                assert(init.filter(keep)[k] == x);
            }
            assert(s[s.len() - 1] == x);
        }
    }
}

/// HomePods that can be streamed to and have an address.
pub open spec fn is_ready_homepod() -> spec_fn(Device) -> bool {
    |d: Device| can_stream(d) && d.addresses@.len() > 0 && d.kind == DeviceKind::HomePod
}

proof fn lemma_ready_homepods(devices: Seq<Device>)
    ensures
        homepods(reachable(devices)).len() == devices.filter(is_ready_homepod()).len(),
        forall|k: int|
            0 <= k < homepods(reachable(devices)).len() ==> is_speaker_of(
                #[trigger] homepods(reachable(devices))[k],
                devices.filter(is_ready_homepod())[k],
            ),
    decreases devices.len(),
{
    reveal(Seq::filter);
    if devices.len() > 0 {
        let init = devices.drop_last();
        lemma_ready_homepods(init);
        lemma_reachable(devices);
        lemma_reachable(init);
        let r = reachable(devices);
        if r.len() > reachable(init).len() {
            assert(r.drop_last() =~= reachable(init));
        }
    }
}

/// Nobody's speaker is taken over unasked. Without a name, the live test has an
/// address exactly when, of all devices found, one and only one is a HomePod that
/// can be streamed to and has an address; and the address is the one that is
/// picked of its own.
pub proof fn law_live_test_takes_the_only_homepod(
    devices: Vec<Device>,
    as_address: Option<Address>,
    r: (Vec<Check>, Option<Address>),
)
    requires
        call_ensures(examine_devices, (&devices, &None::<String>, as_address), r),
    ensures
        r.1 is Some <==> is_only(devices@, is_ready_homepod()),
        r.1 matches Some(a) ==> forall|i: int|
            0 <= i < devices@.len() && is_ready_homepod()(#[trigger] devices@[i]) ==> is_pick(
                devices@[i].addresses@,
                a,
            ),
        r.1 is None ==> r.0@.len() > 0 && r.0@.last().level == Level::Skip,
{
    lemma_ready_homepods(devices@);
    lemma_counting(devices@, is_ready_homepod());
    let checks = device_checks(devices@, None, as_address);
    assert(check_views(r.0@).len() == r.0@.len());
    if r.1 is None {
        assert(checks.last().level == Level::Skip);
        assert(check_views(r.0@)[r.0@.len() - 1] == r.0@[r.0@.len() - 1]@);
    }
}

/// A test that a user asked for runs where the user said: at the address that was
/// given, or else at the first device that can be streamed to, has an address,
/// and bears the name; and a name that no such device bears is a failure.
pub proof fn law_live_test_goes_where_the_user_said(
    devices: Vec<Device>,
    wanted: String,
    as_address: Option<Address>,
    r: (Vec<Check>, Option<Address>),
)
    requires
        call_ensures(examine_devices, (&devices, &Some(wanted), as_address), r),
    ensures
        as_address is Some ==> r.1 == as_address,
        as_address is None ==> {
            let ready = devices@.filter(streamable());
            match r.1 {
                Some(a) => exists|k: int|
                    0 <= k < ready.len() && names((#[trigger] ready[k]).name@, wanted@) && is_pick(
                        ready[k].addresses@,
                        a,
                    ) && forall|j: int| 0 <= j < k ==> !names((#[trigger] ready[j]).name@, wanted@),
                None => (forall|j: int|
                    0 <= j < ready.len() ==> !names((#[trigger] ready[j]).name@, wanted@))
                    && r.0@.len() > 0 && r.0@.last().level == Level::Fail,
            }
        },
{
    let ready = devices@.filter(streamable());
    let speakers = reachable(devices@);
    lemma_reachable(devices@);
    lemma_speakers_named(speakers, wanted@);
    assert forall|k: int| 0 <= k < ready.len() implies (#[trigger] ready[k]).name
        == speakers[k].name by {
        assert(is_speaker_of(speakers[k], ready[k]));
    }
    if as_address is None {
        match r.1 {
            Some(a) => {
                let k = crate::devices::first_true(
                    crate::devices::speakers_meant(speakers, wanted@),
                )->0;
                assert(is_speaker_of(speakers[k], ready[k]));
                assert(names(ready[k].name@, wanted@));
                assert forall|j: int| 0 <= j < k implies !names(
                    (#[trigger] ready[j]).name@,
                    wanted@,
                ) by {
                    assert(!names(speakers[j].name@, wanted@));
                }
            },
            None => {
                assert forall|j: int| 0 <= j < ready.len() implies !names(
                    (#[trigger] ready[j]).name@,
                    wanted@,
                ) by {
                    assert(!names(speakers[j].name@, wanted@));
                }
                let checks = device_checks(devices@, Some(wanted), None);
                assert(checks.last().level == Level::Fail);
                assert(check_views(r.0@).len() == r.0@.len());
                assert(check_views(r.0@)[r.0@.len() - 1] == r.0@[r.0@.len() - 1]@);
            },
        }
    }
}

/// Discovery passes exactly when some device can be streamed to and has an
/// address; and that is the first check.
pub proof fn law_discovery_comes_first(
    devices: Vec<Device>,
    wanted: Option<String>,
    as_address: Option<Address>,
    r: (Vec<Check>, Option<Address>),
)
    requires
        call_ensures(examine_devices, (&devices, &wanted, as_address), r),
    ensures
        r.0@.len() > 0,
        r.0@[0].level == if is_none(devices@, streamable()) {
            Level::Fail
        } else {
            Level::Pass
        },
{
    lemma_reachable(devices@);
    lemma_counting(devices@, streamable());
    let checks = device_checks(devices@, wanted, as_address);
    assert(checks[0] == discovery_verdict(reachable(devices@)));
    assert(check_views(r.0@).len() == r.0@.len());
    assert(check_views(r.0@)[0] == r.0@[0]@);
}

/// The target at a place of the list is the speaker there, and no place is no
/// target and a failure.
pub proof fn law_named_target_is_the_speaker(
    wanted: &str,
    speakers: Vec<Speaker>,
    at: Option<usize>,
    t: Target,
)
    requires
        at matches Some(i) ==> i < speakers@.len(),
        call_ensures(named_target, (wanted, &speakers, at), t),
    ensures
        match at {
            Some(i) => t.address == Some(speakers@[i as int].address) && (t.note matches Some(c)
                && c.level == Level::Info && reads_in(c.detail@, speakers@[i as int].name@)),
            None => t.address is None && (t.note matches Some(c) && c.level == Level::Fail
                && reads_in(c.detail@, wanted@)),
        },
{
    match at {
        Some(i) => {
            let head = "matched '"@ + wanted@ + "' to "@;
            let name = speakers@[i as int].name@;
            let d = t.note->0.detail@;
            assert(d.subrange(head.len() as int, (head.len() + name.len()) as int) =~= name);
            assert(crate::text::stands_at(d, name, head.len() as int));
            lemma_fragment_reads(d, name);
        },
        None => {
            let head = "no discovered device matches '"@;
            let d = t.note->0.detail@;
            assert(d.subrange(head.len() as int, (head.len() + wanted@.len()) as int) =~= wanted@);
            assert(crate::text::stands_at(d, wanted@, head.len() as int));
            lemma_fragment_reads(d, wanted@);
        },
    }
}

/// Where nobody named a device, the only HomePod is the target, and the only
/// HomePod is what keeps the test from being skipped.
pub proof fn law_default_target_is_the_only_homepod(
    speakers: Vec<Speaker>,
    t: Target,
    was_named: bool,
    skipped: Option<Check>,
)
    requires
        call_ensures(default_target, (&speakers,), t),
        call_ensures(session_skipped, (was_named, &speakers), skipped),
    ensures
        t.address is Some <==> is_only(speakers@, is_homepod()),
        t.address matches Some(a) ==> forall|i: int|
            0 <= i < speakers@.len() && (#[trigger] speakers@[i]).kind == DeviceKind::HomePod ==> a
                == speakers@[i].address,
        t.note is None <==> is_none(speakers@, is_homepod()),
        t.note matches Some(c) ==> c.level == Level::Info,
        skipped is None <==> was_named || is_only(speakers@, is_homepod()),
        skipped matches Some(c) ==> c.level == Level::Skip,
{
    lemma_homepods(speakers@);
    lemma_counting(speakers@, is_homepod());
    if t.address is Some {
        assert forall|i: int|
            0 <= i < speakers@.len() && (#[trigger] speakers@[i]).kind
                == DeviceKind::HomePod implies t.address->0 == speakers@[i].address by {
            assert(is_homepod()(speakers@[i]));
        }
    }
}

/// Checks that failed.
pub open spec fn is_failure() -> spec_fn(Check) -> bool {
    |c: Check| c.level == Level::Fail
}

proof fn lemma_failures(checks: Seq<Check>)
    ensures
        count_failures(checks) == checks.filter(is_failure()).len(),
    decreases checks.len(),
{
    reveal(Seq::filter);
    if checks.len() > 0 {
        lemma_failures(checks.drop_last());
    }
}

/// The failures of a run are the checks that failed, and the run exits well
/// exactly when there is none.
pub proof fn law_failures_are_counted(report: Report, n: u64, code: i32)
    requires
        call_ensures(Report::failures, (&report,), n),
        call_ensures(Report::exit_code, (&report,), code),
    ensures
        n == report.checks@.filter(is_failure()).len(),
        code == 0 <==> is_none(report.checks@, is_failure()),
        code == 0 || code == 1,
{
    lemma_failures(report.checks@);
    lemma_counting(report.checks@, is_failure());
}

/// What a tally counts: the whole frames of each chunk, the chunks in which one
/// sample is not zero, and whether the capture was found gone.
pub proof fn law_tally_counts(tally: CaptureTally, receptions: Seq<Reception>, reception: Reception)
    requires
        tally.frames <= u64::MAX / 2,
        tally.audible_chunks < u64::MAX,
        reception matches Reception::Frame(f) ==> f.samples@.len() <= u64::MAX / 2,
    ensures
        ({
            let after = tally.counted(reception);
            match reception {
                Reception::Frame(f) => {
                    let loud = exists|i: int| 0 <= i < f.samples@.len() && f.samples@[i] != 0;
                    &&& f.channels > 0 ==> after.frames == tally.frames + f.samples@.len() as int
                        / f.channels as int
                    &&& f.channels == 0 ==> after.frames == tally.frames
                    &&& after.audible_chunks == tally.audible_chunks + if loud {
                        1int
                    } else {
                        0
                    }
                    &&& after.died == tally.died
                },
                Reception::Timeout => after == tally,
                Reception::Disconnected => after == (CaptureTally { died: true, ..tally }),
            }
        }),
        CaptureTally::of(Seq::empty()) == (CaptureTally {
            frames: 0,
            audible_chunks: 0,
            died: false,
        }),
        CaptureTally::of(receptions.push(reception)) == CaptureTally::of(receptions).counted(
            reception,
        ),
{
    assert(receptions.push(reception).drop_last() =~= receptions);
    if let Reception::Frame(f) = reception {
        assert(crate::pcm::is_audible(f.samples@) <==> exists|i: int|
            0 <= i < f.samples@.len() && f.samples@[i] != 0);
        if f.channels > 0 {
            let n = f.samples@.len() as int;
            let ch = f.channels as int;
            assert(0 <= n / ch <= n) by (nonlinear_arith)
                requires
                    n >= 0,
                    ch > 0,
            ;
        }
    }
}

/// The sampling reads the clock, waits 100 ms for the capture, and so on in turn,
/// for five seconds and no longer, unless the capture goes away.
pub proof fn law_sampling_lasts_five_seconds(
    start: Instant,
    receptions: Seq<Reception>,
    clock: Seq<u64>,
    tally: CaptureTally,
)
    requires
        is_sampling(receptions, clock, tally),
        receptions.len() < u64::MAX,
    ensures
        ({
            let n = receptions.len() as int;
            let steps = sampling_steps(start, receptions, clock);
            &&& tally == CaptureTally::of(receptions)
            &&& steps.len() == n + clock.len()
            &&& forall|i: int|
                0 <= i < clock.len() ==> #[trigger] steps[2 * i] == (Deed::Aged {
                    since: start,
                    nanos: clock[i],
                })
            &&& forall|i: int|
                0 <= i < n ==> #[trigger] steps[2 * i + 1] == (Deed::Waited {
                    wait_ms: 100,
                    reception: receptions[i],
                })
            &&& forall|i: int| 0 <= i < n ==> #[trigger] clock[i] < 5_000_000_000
            &&& forall|i: int| 0 <= i < n - 1 ==> !((#[trigger] receptions[i]) is Disconnected)
            &&& n > 0 && receptions[n - 1] is Disconnected || clock.len() == n + 1 && clock[n]
                >= 5_000_000_000
        }),
{
}

proof fn lemma_nearest(frames: int)
    requires
        frames >= 0,
    ensures
        0 <= frames_per_second(frames),
        -5 <= 2 * (5 * frames_per_second(frames) - frames) <= 5,
{
    let q = frames_per_second(frames);
    assert(q == (2 * frames + 5) / 10);
    assert(10 * q <= 2 * frames + 5 < 10 * q + 10);
}

/// What the tally is judged to be: a capture that went away fails, whatever it
/// gave before; nothing captured, or nothing but silence, is a warning; real audio
/// passes, and then the frames a second are told, to the nearest whole number.
pub proof fn law_capture_is_judged(tally: CaptureTally, r: Vec<Check>)
    requires
        call_ensures(capture_checks, (&tally,), r),
    ensures
        r@.len() == if tally.died {
            2int
        } else {
            1
        },
        tally.died ==> r@[0].level == Level::Fail,
        r@.last().level == if tally.frames > 0 && tally.audible_chunks > 0 {
            Level::Pass
        } else {
            Level::Warn
        },
        tally.frames > 0 ==> exists|q: nat|
            -5 <= 2 * (5 * q - tally.frames) <= 5 && #[trigger] decimal(q).is_prefix_of(
                r@.last().detail@,
            ),
{
    assert(check_views(r@).len() == r@.len());
    let last = r@[r@.len() - 1];
    assert(check_views(r@)[0] == r@[0]@);
    assert(check_views(r@)[r@.len() - 1] == last@);
    if tally.frames > 0 {
        let q = frames_per_second(tally.frames as int) as nat;
        let d = last.detail@;
        lemma_nearest(tally.frames as int);
        assert(d.take(decimal(q).len() as int) =~= decimal(q));
        assert(decimal(q).is_prefix_of(d)) by {
            assert(d.subrange(0, decimal(q).len() as int) =~= decimal(q));
        }
    }
}

/// A rule listing covers every profile exactly when each line of it that begins
/// with "Profiles:", white space aside, says "Any", or both "Public" and
/// "Private".
pub open spec fn covers(listing: Seq<char>) -> bool {
    forall|i: int|
        0 <= i < lines(listing).len() && "Profiles:"@.is_prefix_of(
            left_trimmed(#[trigger] lines(listing)[i]),
        ) ==> reads_in(lines(listing)[i], "Any"@) || (reads_in(lines(listing)[i], "Public"@)
            && reads_in(lines(listing)[i], "Private"@))
}

proof fn lemma_covers(listing: Seq<char>)
    ensures
        rules_cover_all(listing) <==> covers(listing),
{
    assert forall|i: int| 0 <= i < lines(listing).len() implies crate::doctor::covers_all(
        #[trigger] lines(listing)[i],
    ) == (reads_in(lines(listing)[i], "Any"@) || (reads_in(lines(listing)[i], "Public"@)
        && reads_in(lines(listing)[i], "Private"@))) by {
        lemma_fragment_reads(lines(listing)[i], "Any"@);
        lemma_fragment_reads(lines(listing)[i], "Public"@);
        lemma_fragment_reads(lines(listing)[i], "Private"@);
    }
    if rules_cover_all(listing) {
        assert forall|i: int|
            0 <= i < lines(listing).len() && "Profiles:"@.is_prefix_of(
                left_trimmed(#[trigger] lines(listing)[i]),
            ) implies reads_in(lines(listing)[i], "Any"@) || (reads_in(
            lines(listing)[i],
            "Public"@,
        ) && reads_in(lines(listing)[i], "Private"@)) by {
            assert(crate::doctor::is_profile_line(lines(listing)[i]));
        }
    }
    if covers(listing) {
        assert forall|i: int|
            0 <= i < lines(listing).len() && crate::doctor::is_profile_line(
                #[trigger] lines(listing)[i],
            ) implies crate::doctor::covers_all(lines(listing)[i]) by {}
    }
}

/// Whether a listing covers every profile.
pub proof fn law_profiles_are_covered(listing: &str, r: bool)
    requires
        call_ensures(all_profiles_covered, (listing,), r),
    ensures
        r <==> covers(listing@),
{
    lemma_covers(listing@);
}

/// The firewall check passes exactly when there is a listing that covers every
/// profile and names the folder of this program; otherwise it fails.
pub proof fn law_firewall_passes(output: Option<Vec<u8>>, exe_dir: &str, r: Check)
    requires
        call_ensures(firewall_check, (&output, exe_dir), r),
    ensures
        r.level == Level::Pass <==> (output matches Some(bytes) && covers(lossy(bytes@))
            && reads_in(lossy(bytes@), exe_dir@)),
        r.level == Level::Pass || r.level == Level::Fail,
{
    if let Some(bytes) = output {
        lemma_covers(lossy(bytes@));
        lemma_fragment_reads(lossy(bytes@), exe_dir@);
    }
}

/// The network profile is told exactly when the query printed something that is
/// not white space; otherwise there is a warning.
pub proof fn law_profile_is_told(output: Option<Vec<u8>>, r: Check)
    requires
        call_ensures(profile_check, (&output,), r),
    ensures
        r.level == Level::Info <==> (output matches Some(bytes) && exists|i: int|
            0 <= i < lossy(bytes@).len() && !whitespace(lossy(bytes@)[i])),
        r.level == Level::Info || r.level == Level::Warn,
{
    if let Some(bytes) = output {
        let s = lossy(bytes@);
        let k = lemma_left_trim(s);
        let left = left_trimmed(s);
        let m = lemma_right_trim(left);
        if exists|i: int| 0 <= i < s.len() && !whitespace(s[i]) {
            let i = choose|i: int| 0 <= i < s.len() && !whitespace(s[i]);
            assert(i >= k);
            assert(left[i - k] == s[i]);
            assert(m > 0);
        } else {
            assert(k == s.len());
        }
    }
}

/// A device can be reached exactly when the connection had no error; a live test
/// passes exactly when it counted at least one query.
pub proof fn law_live_test_is_judged(
    address: &str,
    error: Option<String>,
    reached: Check,
    outcome: Result<Option<u64>, String>,
    tested: Check,
)
    requires
        call_ensures(reachability_check, (address, &error), reached),
        call_ensures(session_check, (&outcome,), tested),
    ensures
        reached.level == if error is None {
            Level::Pass
        } else {
            Level::Fail
        },
        tested.level == if (outcome matches Ok(q) && (q matches Some(n) && n > 0)) {
            Level::Pass
        } else {
            Level::Fail
        },
{
}

/// The word that is offered is the first of the name, in lower case, and
/// "kitchen" where the name has none.
pub proof fn law_word_is_the_first_of_the_name(name: &str, r: String, i: int, j: int)
    requires
        call_ensures(word_to_pick, (name,), r),
        0 <= i <= j <= name@.len(),
        forall|k: int| 0 <= k < i ==> whitespace(name@[k]),
        forall|k: int| i <= k < j ==> !whitespace(name@[k]),
        j < name@.len() ==> whitespace(name@[j]),
        i == j ==> i == name@.len(),
    ensures
        i < j ==> r@ == lowercase(name@.subrange(i, j)),
        i == j ==> r@ == lowercase("kitchen"@),
{
    let k = lemma_left_trim(name@);
    let left = left_trimmed(name@);
    let m = lemma_word(left);
    if k < i {
        assert(whitespace(name@[k]));
    } else if i < k {
        assert(whitespace(name@[i]));
    }
    assert(k == i);
    if m < j - i {
        assert(whitespace(left[m]));
        assert(left[m] == name@[i + m]);
    } else if m > j - i {
        assert(!whitespace(left[j - i]));
        assert(left[j - i] == name@[j]);
    }
    assert(left.take(m) =~= name@.subrange(i, j));
}

/// The list of discovery names every speaker, with its kind and its address, one
/// after the other.
pub proof fn law_discovery_lists_every_speaker(speakers: Seq<Speaker>, s: Speaker)
    ensures
        speakers.len() == 0 ==> listing(speakers.push(s)) == listing_entry(s),
        speakers.len() > 0 ==> listing(speakers.push(s)) == listing(speakers) + "; "@
            + listing_entry(s),
        listing_entry(s) == s.name@ + " ("@ + (match s.kind {
            DeviceKind::HomePod => "HomePod"@,
            DeviceKind::AppleTv => "AppleTv"@,
            DeviceKind::OtherAirPlay => "OtherAirPlay"@,
        }) + ", "@ + s.address.text@ + ")"@,
{
    assert(speakers.push(s).drop_last() =~= speakers);
}

/// A check is printed with its level, its name and what was found, in this order.
pub proof fn law_check_is_printed(c: Check, r: String)
    requires
        call_ensures(Check::line, (&c,), r),
    ensures
        ({
            let tag = match c.level {
                Level::Pass => "PASS"@,
                Level::Warn => "WARN"@,
                Level::Fail => "FAIL"@,
                Level::Info => "INFO"@,
                Level::Skip => "SKIP"@,
            };
            r@ == "["@ + tag + "] "@ + c.name@ + " — "@ + c.detail@
        }),
{
}

/// The target of each case, and what is said of it: at an address that the user
/// gave, nothing is said; a speaker that bears the name is told with its address;
/// a name that nobody bears is told as a failure; and without a name it is the
/// only HomePod, or, where there are several, how many there are and a word to
/// pick the first of them by.
pub proof fn law_target_is_told(
    wanted: Option<String>,
    as_address: Option<Address>,
    speakers: Vec<Speaker>,
    t: Target,
)
    requires
        call_ensures(choose_target, (&wanted, as_address, &speakers), t),
    ensures
        wanted is Some && as_address is Some ==> t.address == as_address && t.note is None,
        wanted matches Some(w) ==> as_address is None ==> match t.address {
            Some(a) => exists|k: int|
                0 <= k < speakers@.len() && (#[trigger] speakers@[k]).address == a && names(
                    speakers@[k].name@,
                    w@,
                ) && (forall|j: int| 0 <= j < k ==> !names((#[trigger] speakers@[j]).name@, w@))
                    && (t.note matches Some(c) && c.level == Level::Info && c.detail@
                    == "matched '"@ + w@ + "' to "@ + speakers@[k].name@ + " ("@
                    + speakers@[k].address.text@ + ")"@),
            None => (forall|j: int|
                0 <= j < speakers@.len() ==> !names((#[trigger] speakers@[j]).name@, w@)) && (
            t.note matches Some(c) && c.level == Level::Fail && c.detail@
                == "no discovered device matches '"@ + w@ + "' — see the discovery list above"@),
        },
        wanted is None ==> {
            let pods = speakers@.filter(is_homepod());
            &&& t.address is Some <==> pods.len() == 1
            &&& t.note is Some <==> pods.len() >= 1
            &&& pods.len() == 1 ==> (t.note matches Some(c) && c.level == Level::Info && c.detail@
                == "one HomePod found — testing against "@ + pods[0].name@ + " ("@
                + pods[0].address.text@ + ")"@) && t.address == Some(pods[0].address)
            &&& pods.len() > 1 ==> (t.note matches Some(c) && c.level == Level::Info && c.detail@
                == decimal(pods.len())
                + " HomePods found — re-run as 'playfruit doctor <name>' (e.g. doctor "@
                + pick_word(pods[0].name@) + ") to pick one for the live clock-sync test"@)
        },
{
    lemma_homepods(speakers@);
    if let Some(w) = wanted {
        lemma_speakers_named(speakers@, w@);
    }
}

/// How many checks there are before the live test: discovery; what is said of the
/// target, if anything is; and that there is no test, where nobody named a device
/// and there is no target.
pub proof fn law_checks_before_the_live_test(
    devices: Vec<Device>,
    wanted: Option<String>,
    as_address: Option<Address>,
    r: (Vec<Check>, Option<Address>),
)
    requires
        call_ensures(examine_devices, (&devices, &wanted, as_address), r),
    ensures
        r.0@.len() == if wanted is Some {
            if as_address is Some {
                1int
            } else {
                2
            }
        } else if is_none(devices@, is_ready_homepod()) || is_only(devices@, is_ready_homepod()) {
            2
        } else {
            3
        },
        forall|i: int|
            1 <= i < r.0@.len() ==> ((#[trigger] r.0@[i]).level == Level::Fail <==> wanted is Some
                && r.1 is None),
{
    lemma_ready_homepods(devices@);
    lemma_counting(devices@, is_ready_homepod());
    assert(check_views(r.0@).len() == r.0@.len());
    assert forall|i: int| 1 <= i < r.0@.len() implies ((#[trigger] r.0@[i]).level == Level::Fail
        <==> wanted is Some && r.1 is None) by {
        assert(check_views(r.0@)[i] == r.0@[i]@);
    }
}

/// The last word of a run tells how many checks failed, or that none did.
pub proof fn law_diagnosis_tells_the_failures(report: Report, r: String)
    requires
        call_ensures(Report::diagnosis, (&report,), r),
    ensures
        is_none(report.checks@, is_failure()) ==> r@
            == "DIAGNOSIS: all checks passed. If audio is still silent, note the capture check's warning text."@,
        !is_none(report.checks@, is_failure()) ==> r@ == "DIAGNOSIS: "@ + decimal(
            report.checks@.filter(is_failure()).len(),
        )
            + " failing check(s) — fix the FIRST failure above; later checks often depend on it."@,
{
    lemma_failures(report.checks@);
    lemma_counting(report.checks@, is_failure());
}

/// Each judgement by itself. Rules pass exactly when they cover every profile and
/// name the folder; profiles are told exactly when there are some; discovery fails
/// exactly when it found nothing; a capture that could not be opened fails, with
/// the reason; and what was not checked is skipped.
pub proof fn law_judgements(
    covered: bool,
    listing: &str,
    exe_dir: &str,
    rules: Check,
    names: Vec<char>,
    profiles: Check,
    speakers: Vec<Speaker>,
    discovery: Check,
    error: &str,
    capture: Check,
    skipped: Check,
)
    requires
        call_ensures(judge_rules, (covered, listing, exe_dir), rules),
        call_ensures(judge_profiles, (&names,), profiles),
        call_ensures(discovery_check, (&speakers,), discovery),
        call_ensures(capture_unopened, (error,), capture),
        call_ensures(firewall_skipped, (), skipped),
    ensures
        rules.level == if covered && reads_in(listing@, exe_dir@) {
            Level::Pass
        } else {
            Level::Fail
        },
        profiles.level == if names@.len() == 0 {
            Level::Warn
        } else {
            Level::Info
        },
        names@.len() > 0 && (forall|i: int| 0 <= i < names@.len() ==> names@[i] != '\n')
            ==> profiles.detail@ == "active profile(s): "@ + names@,
        discovery.level == if speakers@.len() == 0 {
            Level::Fail
        } else {
            Level::Pass
        },
        speakers@.len() > 0 ==> discovery.detail@ == crate::doctor::listing(speakers@),
        capture.level == Level::Fail,
        reads_in(capture.detail@, error@),
        skipped.level == Level::Skip,
{
    lemma_fragment_reads(listing@, exe_dir@);
    let head = "could not open loopback capture: "@;
    assert(capture.detail@ == head + error@);
    assert((head + error@).subrange(head.len() as int, (head + error@).len() as int) =~= error@);
    assert(crate::text::stands_at(capture.detail@, error@, head.len() as int));
    lemma_fragment_reads(capture.detail@, error@);
    if forall|i: int| 0 <= i < names@.len() ==> names@[i] != '\n' {
        lemma_replaced_none(names@, '\n', ", "@);
    }
}

proof fn lemma_replaced_none(s: Seq<char>, c: char, new: Seq<char>)
    requires
        forall|i: int| 0 <= i < s.len() ==> s[i] != c,
    ensures
        crate::text::replaced(s, c, new) == s,
    decreases s.len(),
{
    if s.len() > 0 {
        let init = s.drop_last();
        assert forall|i: int| 0 <= i < init.len() implies init[i] != c by {
            assert(init[i] == s[i]);
        }
        lemma_replaced_none(init, c, new);
        assert(init.push(s.last()) =~= s);
    }
    assert(crate::text::replaced(s, c, new) =~= s);
}

/// Several HomePods are told with their number and the word.
pub proof fn law_several_are_told(count: usize, word: &str, r: Check)
    requires
        call_ensures(say_several, (count, word), r),
    ensures
        r.level == Level::Info,
        r.detail@ == decimal(count as nat)
            + " HomePods found — re-run as 'playfruit doctor <name>' (e.g. doctor "@ + word@
            + ") to pick one for the live clock-sync test"@,
{
}

/// What the live test tells: the address that was tried, the reason of a failure,
/// and how many queries came in over the twelve seconds.
pub proof fn law_live_test_is_told(
    address: &str,
    error: Option<String>,
    reached: Check,
    outcome: Result<Option<u64>, String>,
    tested: Check,
)
    requires
        call_ensures(reachability_check, (address, &error), reached),
        call_ensures(session_check, (&outcome,), tested),
    ensures
        error is None ==> reached.detail@ == address@ + ":7000 reachable"@,
        error matches Some(e) ==> reached.detail@ == "cannot reach "@ + address@ + ":7000 — "@ + e@,
        outcome matches Err(e) ==> tested.detail@ == "could not establish a session: "@ + e@,
        tested.level == Level::Pass ==> (outcome matches Ok(q) && (q matches Some(n)
            && tested.detail@ == decimal(n as nat) + " timing requests answered in "@ + decimal(12)
            + "s — receiver can sync; audio path is healthy"@)),
{
}

} // verus!
