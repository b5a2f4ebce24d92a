//! The checks of `playfruit doctor`: what each finding means, and what to do
//! about it.

use crate::capture::{Probe, Reception};
use crate::clock::NANOS_PER_SEC;
use crate::devices::{
    find_speaker, first_true, reachable, reachable_speakers, speakers_meant, Address, Device,
    DeviceKind, Speaker,
};
use crate::numbers::{add_capped, capped_sum, decimal, to_decimal};
use crate::pcm::{audible, is_audible, CapturedFrame};
use crate::rig::Deed;
use crate::text::{
    chars_of, contains, contains_chars, first_run, from_lossy, has_fragment, joined, joined3,
    left_trimmed, lines, lossy, lowercase, replace_char, replaced, right_trimmed, split_lines,
    starts_with, text_of, to_lower, trim_left, trim_right, views, word,
};
use std::time::Instant;
use vstd::prelude::*;
use vstd::string::*;

verus! {

/// How a check came out.
#[derive(Debug, Clone, Copy, PartialEq, Eq, Structural)]
pub enum Level {
    Pass,
    Warn,
    Fail,
    Info,
    Skip,
}

/// One line of the diagnosis.
#[derive(Debug)]
pub struct Check {
    pub level: Level,
    pub name: String,
    pub detail: String,
}

/// A check, with its texts as characters.
pub struct CheckView {
    pub level: Level,
    pub name: Seq<char>,
    pub detail: Seq<char>,
}

impl View for Check {
    type V = CheckView;

    open spec fn view(&self) -> CheckView {
        CheckView { level: self.level, name: self.name@, detail: self.detail@ }
    }
}

/// The view of a check that may not be there.
pub open spec fn check_view(c: Option<Check>) -> Option<CheckView> {
    match c {
        Some(check) => Some(check@),
        None => None,
    }
}

/// The checks as characters.
pub open spec fn check_views(checks: Seq<Check>) -> Seq<CheckView> {
    checks.map_values(|c: Check| c@)
}

fn check(level: Level, name: &str, detail: &str) -> (r: Check)
    ensures
        r@ == (CheckView { level, name: name@, detail: detail@ }),
{
    Check { level, name: name.to_owned(), detail: detail.to_owned() }
}

impl Level {
    /// How the level is written.
    pub open spec fn tag(self) -> Seq<char> {
        match self {
            Level::Pass => "PASS"@,
            Level::Warn => "WARN"@,
            Level::Fail => "FAIL"@,
            Level::Info => "INFO"@,
            Level::Skip => "SKIP"@,
        }
    }

    fn to_tag(self) -> (r: &'static str)
        ensures
            r@ == self.tag(),
    {
        match self {
            Level::Pass => "PASS",
            Level::Warn => "WARN",
            Level::Fail => "FAIL",
            Level::Info => "INFO",
            Level::Skip => "SKIP",
        }
    }
}

impl CheckView {
    /// The check as it is printed.
    pub open spec fn line(self) -> Seq<char> {
        "["@ + self.level.tag() + "] "@ + self.name + " — "@ + self.detail
    }
}

impl Check {
    /// The check as it is printed.
    pub fn line(&self) -> (r: String)
        ensures
            r@ == self@.line(),
    {
        let mut out: String = joined3("[", self.level.to_tag(), "] ");
        out.append(self.name.as_str());
        out.append(" — ");
        out.append(self.detail.as_str());
        out
    }
}

/// The checks of one run, in the order they were made.
#[derive(Debug)]
pub struct Report {
    pub checks: Vec<Check>,
}

/// How many of the checks failed.
pub open spec fn count_failures(checks: Seq<Check>) -> nat
    decreases checks.len(),
{
    if checks.len() == 0 {
        0
    } else {
        count_failures(checks.drop_last()) + if checks.last().level == Level::Fail {
            1nat
        } else {
            0
        }
    }
}

/// The last word of the diagnosis.
pub open spec fn diagnosis_of(failures: nat) -> Seq<char> {
    if failures == 0 {
        "DIAGNOSIS: all checks passed. If audio is still silent, note the capture check's warning text."@
    } else {
        "DIAGNOSIS: "@ + decimal(failures)
            + " failing check(s) — fix the FIRST failure above; later checks often depend on it."@
    }
}

impl Report {
    /// A run that has made no check yet.
    pub fn new() -> (r: Report)
        ensures
            r.checks@ == Seq::<Check>::empty(),
    {
        Report { checks: Vec::new() }
    }

    /// Adds a check, and returns the line to print for it.
    pub fn add(&mut self, check: Check) -> (line: String)
        ensures
            final(self).checks@ == old(self).checks@.push(check),
            line@ == check@.line(),
    {
        let line: String = check.line();
        self.checks.push(check);
        line
    }

    /// How many of the checks failed.
    pub fn failures(&self) -> (r: u64)
        ensures
            r == count_failures(self.checks@),
    {
        let mut n: u64 = 0;
        let mut i: usize = 0;
        while i < self.checks.len()
            invariant
                i <= self.checks.len(),
                n <= i,
                n == count_failures(self.checks@.take(i as int)),
            decreases self.checks.len() - i,
        {
            assert(self.checks@.take(i + 1).drop_last() =~= self.checks@.take(i as int));
            if self.checks[i].level == Level::Fail {
                n = n + 1;
            }
            i = i + 1;
        }
        assert(self.checks@.take(self.checks.len() as int) =~= self.checks@);
        n
    }

    /// The last word of the diagnosis.
    pub fn diagnosis(&self) -> (r: String)
        ensures
            r@ == diagnosis_of(count_failures(self.checks@)),
    {
        let failures: u64 = self.failures();
        if failures == 0 {
            "DIAGNOSIS: all checks passed. If audio is still silent, note the capture check's warning text.".to_owned()
        } else {
            joined3(
                "DIAGNOSIS: ",
                to_decimal(failures).as_str(),
                " failing check(s) — fix the FIRST failure above; later checks often depend on it.",
            )
        }
    }

    /// The exit code of the run: 0 where nothing failed, else 1.
    pub fn exit_code(&self) -> (r: i32)
        ensures
            r == (if count_failures(self.checks@) == 0 {
                0int
            } else {
                1
            }),
    {
        if self.failures() == 0 {
            0
        } else {
            1
        }
    }
}

/// A run comes out well exactly when no check of it failed; warnings, notes and
/// skipped checks do not count.
pub proof fn law_well_exactly_when_nothing_failed(checks: Seq<Check>)
    ensures
        count_failures(checks) == 0 <==> forall|i: int|
            0 <= i < checks.len() ==> (#[trigger] checks[i]).level != Level::Fail,
    decreases checks.len(),
{
    if checks.len() > 0 {
        let init = checks.drop_last();
        law_well_exactly_when_nothing_failed(init);
        assert(checks.last() == checks[checks.len() - 1]);
        if count_failures(checks) == 0 {
            assert forall|i: int| 0 <= i < checks.len() implies (#[trigger] checks[i]).level
                != Level::Fail by {
                if i < init.len() {
                    assert(init[i] == checks[i]);
                }
            }
        }
        if forall|i: int| 0 <= i < checks.len() ==> (#[trigger] checks[i]).level != Level::Fail {
            assert forall|i: int| 0 <= i < init.len() implies (#[trigger] init[i]).level
                != Level::Fail by {
                assert(init[i] == checks[i]);
            }
        }
    }
}

/// The line of the rule listing names the network profiles that a rule covers.
pub open spec fn is_profile_line(line: Seq<char>) -> bool {
    "Profiles:"@.is_prefix_of(left_trimmed(line))
}

/// The line covers every profile that matters.
pub open spec fn covers_all(line: Seq<char>) -> bool {
    has_fragment(line, "Any"@) || (has_fragment(line, "Public"@) && has_fragment(line, "Private"@))
}

/// Every rule of the listing covers every profile that matters.
pub open spec fn rules_cover_all(listing: Seq<char>) -> bool {
    forall|i: int|
        0 <= i < lines(listing).len() && is_profile_line(#[trigger] lines(listing)[i])
            ==> covers_all(lines(listing)[i])
}

/// Whether every rule of the listing covers every profile that matters.
pub fn all_profiles_covered(listing: &str) -> (r: bool)
    ensures
        r == rules_cover_all(listing@),
{
    let chars: Vec<char> = chars_of(listing);
    let all: Vec<Vec<char>> = split_lines(&chars);
    let profiles: Vec<char> = chars_of("Profiles:");
    let any: Vec<char> = chars_of("Any");
    let public: Vec<char> = chars_of("Public");
    let private: Vec<char> = chars_of("Private");
    let mut i: usize = 0;
    while i < all.len()
        invariant
            i <= all.len(),
            views(all@) == lines(listing@),
            profiles@ == "Profiles:"@,
            any@ == "Any"@,
            public@ == "Public"@,
            private@ == "Private"@,
            forall|j: int|
                0 <= j < i && is_profile_line(#[trigger] lines(listing@)[j]) ==> covers_all(
                    lines(listing@)[j],
                ),
        decreases all.len() - i,
    {
        let line: &Vec<char> = &all[i];
        assert(lines(listing@)[i as int] == views(all@)[i as int]);
        let trimmed: Vec<char> = trim_left(line);
        if starts_with(&trimmed, &profiles) {
            let covers: bool = contains_chars(line, &any) || (contains_chars(line, &public)
                && contains_chars(line, &private));
            if !covers {
                assert(is_profile_line(lines(listing@)[i as int]));
                return false;
            }
        }
        i = i + 1;
    }
    assert(views(all@).len() == all.len());
    true
}

/// What the listing of the firewall rules shows. `covered`: every rule covers
/// every profile that matters.
pub open spec fn rules_verdict(covered: bool, listing: Seq<char>, exe_dir: Seq<char>) -> CheckView {
    if !covered {
        CheckView {
            level: Level::Fail,
            name: "firewall-rules"@,
            detail: "rules exist but do NOT cover all network profiles — on a Public-profile network the HomePod's clock-sync queries are blocked and it plays SILENCE. Fix: re-run 'Enable firewall access' in the tray menu (upgrades the rule)."@,
        }
    } else if has_fragment(listing, exe_dir) {
        CheckView {
            level: Level::Pass,
            name: "firewall-rules"@,
            detail: "Playfruit rules present, all profiles, program path matches"@,
        }
    } else {
        CheckView {
            level: Level::Fail,
            name: "firewall-rules"@,
            detail: "rules exist but their program path does not match this exe's folder ("@
                + exe_dir
                + ") — they cover a different/moved copy. Fix: re-run 'Enable firewall access'."@,
        }
    }
}

/// Judges the listing of the firewall rules, once it is known whether every rule
/// covers every profile that matters.
pub fn judge_rules(covered: bool, listing: &str, exe_dir: &str) -> (r: Check)
    ensures
        r@ == rules_verdict(covered, listing@, exe_dir@),
{
    if !covered {
        check(
            Level::Fail,
            "firewall-rules",
            "rules exist but do NOT cover all network profiles — on a Public-profile network the HomePod's clock-sync queries are blocked and it plays SILENCE. Fix: re-run 'Enable firewall access' in the tray menu (upgrades the rule).",
        )
    } else if contains(listing, exe_dir) {
        check(
            Level::Pass,
            "firewall-rules",
            "Playfruit rules present, all profiles, program path matches",
        )
    } else {
        let detail: String = joined3(
            "rules exist but their program path does not match this exe's folder (",
            exe_dir,
            ") — they cover a different/moved copy. Fix: re-run 'Enable firewall access'.",
        );
        check(Level::Fail, "firewall-rules", detail.as_str())
    }
}

/// The firewall check. `output` is what the query for the rules printed, or
/// `None` where it failed; `exe_dir` is the folder that this program runs from.
pub fn firewall_check(output: &Option<Vec<u8>>, exe_dir: &str) -> (r: Check)
    ensures
        r@ == (match output {
            Some(bytes) => rules_verdict(
                rules_cover_all(lossy(bytes@)),
                lossy(bytes@),
                exe_dir@,
            ),
            None => CheckView {
                level: Level::Fail,
                name: "firewall-rules"@,
                detail: "no 'Playfruit' firewall rule found. Fix: click 'Enable firewall access…' in the tray menu (one UAC prompt)."@,
            },
        }),
{
    match output {
        Some(bytes) => {
            let listing: String = from_lossy(bytes);
            let covered: bool = all_profiles_covered(listing.as_str());
            judge_rules(covered, listing.as_str(), exe_dir)
        },
        None => check(
            Level::Fail,
            "firewall-rules",
            "no 'Playfruit' firewall rule found. Fix: click 'Enable firewall access…' in the tray menu (one UAC prompt).",
        ),
    }
}

/// The firewall check where there is nothing to check.
pub fn firewall_skipped() -> (r: Check)
    ensures
        r@ == (CheckView {
            level: Level::Skip,
            name: "firewall-rules"@,
            detail: "Windows-only check"@,
        }),
{
    check(Level::Skip, "firewall-rules", "Windows-only check")
}

/// What the names of the active network profiles, one a line, come to.
pub open spec fn profile_verdict(names: Seq<char>) -> CheckView {
    if names.len() == 0 {
        CheckView {
            level: Level::Warn,
            name: "network-profile"@,
            detail: "could not determine the active network profile"@,
        }
    } else {
        CheckView {
            level: Level::Info,
            name: "network-profile"@,
            detail: "active profile(s): "@ + replaced(names, '\n', ", "@),
        }
    }
}

/// Judges the names of the active network profiles, one a line.
pub fn judge_profiles(names: &Vec<char>) -> (r: Check)
    ensures
        r@ == profile_verdict(names@),
{
    if names.len() == 0 {
        check(Level::Warn, "network-profile", "could not determine the active network profile")
    } else {
        let listed: Vec<char> = replace_char(names, '\n', &chars_of(", "));
        let detail: String = joined("active profile(s): ", text_of(&listed).as_str());
        check(Level::Info, "network-profile", detail.as_str())
    }
}

/// The check of the active network profile. `output` is what the query for it
/// printed, or `None` where it failed.
pub fn profile_check(output: &Option<Vec<u8>>) -> (r: Check)
    ensures
        r@ == (match output {
            Some(bytes) => profile_verdict(right_trimmed(left_trimmed(lossy(bytes@)))),
            None => CheckView {
                level: Level::Warn,
                name: "network-profile"@,
                detail: "could not query Get-NetConnectionProfile"@,
            },
        }),
{
    match output {
        Some(bytes) => {
            let text: String = from_lossy(bytes);
            let chars: Vec<char> = chars_of(text.as_str());
            judge_profiles(&trim_right(&trim_left(&chars)))
        },
        None => check(
            Level::Warn,
            "network-profile",
            "could not query Get-NetConnectionProfile",
        ),
    }
}

/// How long the capture is sampled, in seconds.
pub const SAMPLE_SECS: u64 = 5;

/// How long one turn of the sampling waits, in milliseconds.
pub const SAMPLE_WAIT_MS: u64 = 100;

/// What the capture gave while it was sampled.
#[derive(Debug, Clone, Copy, PartialEq, Eq, Structural)]
pub struct CaptureTally {
    pub frames: u64,
    /// Chunks that held real audio.
    pub audible_chunks: u64,
    /// The capture went away.
    pub died: bool,
}

/// Frames in a captured chunk.
pub open spec fn frames_of(f: CapturedFrame) -> int {
    if f.channels == 0 {
        0
    } else {
        f.samples@.len() as int / f.channels as int
    }
}

impl CaptureTally {
    /// The tally before the sampling.
    pub open spec fn empty() -> CaptureTally {
        CaptureTally { frames: 0, audible_chunks: 0, died: false }
    }

    /// The tally after one reception.
    pub open spec fn counted(self, reception: Reception) -> CaptureTally {
        match reception {
            Reception::Frame(f) => CaptureTally {
                frames: capped_sum(self.frames, frames_of(f)),
                audible_chunks: if is_audible(f.samples@) {
                    capped_sum(self.audible_chunks, 1)
                } else {
                    self.audible_chunks
                },
                ..self
            },
            Reception::Timeout => self,
            Reception::Disconnected => CaptureTally { died: true, ..self },
        }
    }

    /// The tally of a series of receptions.
    pub open spec fn of(receptions: Seq<Reception>) -> CaptureTally
        decreases receptions.len(),
    {
        if receptions.len() == 0 {
            Self::empty()
        } else {
            Self::of(receptions.drop_last()).counted(receptions.last())
        }
    }

    /// The tally before the sampling.
    pub fn new() -> (r: CaptureTally)
        ensures
            r == CaptureTally::empty(),
    {
        CaptureTally { frames: 0, audible_chunks: 0, died: false }
    }

    /// Counts one reception.
    pub fn count(&mut self, reception: Reception)
        ensures
            *final(self) == old(self).counted(reception),
    {
        match reception {
            Reception::Frame(f) => {
                let n: u64 = if f.channels == 0 {
                    0
                } else {
                    (f.samples.len() / f.channels as usize) as u64
                };
                self.frames = add_capped(self.frames, n);
                if audible(&f.samples) {
                    self.audible_chunks = add_capped(self.audible_chunks, 1);
                }
            },
            Reception::Timeout => {},
            Reception::Disconnected => {
                self.died = true;
            },
        }
    }
}

/// How long the capture is sampled, in nanoseconds.
pub open spec fn sample_nanos() -> int {
    SAMPLE_SECS * NANOS_PER_SEC
}

/// These receptions are a sampling with this tally. `clock` holds what the clock
/// showed before each of them. Each was waited for while there was time left,
/// and only the last of them can have found the capture gone. The sampling ended
/// because the capture was gone, or because the time was up. (No sampling takes
/// `u64::MAX` turns; one that did would end there.)
pub open spec fn is_sampling(
    receptions: Seq<Reception>,
    clock: Seq<u64>,
    tally: CaptureTally,
) -> bool {
    let n = receptions.len() as int;
    &&& tally == CaptureTally::of(receptions)
    &&& n <= clock.len() <= n + 1
    &&& forall|i: int| 0 <= i < n ==> #[trigger] clock[i] < sample_nanos()
    &&& forall|i: int| 0 <= i < n - 1 ==> !((#[trigger] receptions[i]) is Disconnected)
    &&& {
        ||| clock.len() == n && n > 0 && receptions[n - 1] is Disconnected
        ||| clock.len() == n + 1 && clock[n] >= sample_nanos() && !(n > 0 && receptions[n - 1]
            is Disconnected)
        ||| n == u64::MAX
    }
}

/// How the channel and the clock were read: the clock, then the channel, and so
/// on in turn.
pub open spec fn sampling_steps(
    start: Instant,
    receptions: Seq<Reception>,
    clock: Seq<u64>,
) -> Seq<Deed> {
    Seq::new(
        receptions.len() + clock.len(),
        |i: int|
            if i % 2 == 0 {
                Deed::Aged { since: start, nanos: clock[i / 2] }
            } else {
                Deed::Waited { wait_ms: SAMPLE_WAIT_MS, reception: receptions[i / 2] }
            },
    )
}

/// Samples the capture for `SAMPLE_SECS`, or until it goes away.
pub fn sample_capture(probe: &mut Probe) -> (tally: CaptureTally)
    requires
        old(probe).wf(),
    ensures
        final(probe).wf(),
        exists|start: Instant, receptions: Seq<Reception>, clock: Seq<u64>|
            is_sampling(receptions, clock, tally) && final(probe).has_done(
                *old(probe),
                seq![Deed::Began(start)] + #[trigger] sampling_steps(start, receptions, clock),
            ),
{
    let ghost first = *probe;
    let start: Instant = probe.begin();
    let mut tally: CaptureTally = CaptureTally::new();
    let ghost mut receptions: Seq<Reception> = Seq::empty();
    let ghost mut clock: Seq<u64> = Seq::empty();
    let mut time_up: bool = false;
    let mut left: u64 = u64::MAX;
    assert(probe.journal() =~= first.journal() + (seq![Deed::Began(start)] + sampling_steps(
        start,
        receptions,
        clock,
    )));
    while left > 0 && !tally.died && !time_up
        invariant
            probe.wf(),
            probe.has_done(
                first,
                seq![Deed::Began(start)] + sampling_steps(start, receptions, clock),
            ),
            tally == CaptureTally::of(receptions),
            clock.len() == receptions.len() + if time_up {
                1int
            } else {
                0
            },
            time_up ==> !tally.died && clock.last() >= sample_nanos(),
            time_up || receptions.len() + left == u64::MAX,
            forall|i: int|
                0 <= i < receptions.len() ==> #[trigger] clock[i] < sample_nanos(),
            forall|i: int|
                0 <= i < receptions.len() - 1 ==> !((#[trigger] receptions[i]) is Disconnected),
            tally.died <==> receptions.len() > 0 && receptions.last() is Disconnected,
        decreases
            left,
            if time_up {
                0int
            } else {
                1int
            },
    {
        let ghost steps = sampling_steps(start, receptions, clock);
        let age: u64 = probe.age(&start);
        proof {
            let aged = Deed::Aged { since: start, nanos: age };
            clock = clock.push(age);
            assert(sampling_steps(start, receptions, clock) =~= steps + seq![aged]);
            assert(probe.journal() =~= first.journal() + (seq![Deed::Began(start)]
                + sampling_steps(start, receptions, clock)));
        }
        if age >= SAMPLE_SECS * NANOS_PER_SEC {
            time_up = true;
        } else {
            left = left - 1;
            let ghost steps = sampling_steps(start, receptions, clock);
            let reception: Reception = probe.wait(SAMPLE_WAIT_MS);
            proof {
                let waited = Deed::Waited { wait_ms: SAMPLE_WAIT_MS, reception };
                let longer = receptions.push(reception);
                assert(longer.drop_last() =~= receptions);
                assert(sampling_steps(start, longer, clock) =~= steps + seq![waited]);
                assert(probe.journal() =~= first.journal() + (seq![Deed::Began(start)]
                    + sampling_steps(start, longer, clock)));
                assert forall|i: int| 0 <= i < longer.len() - 1 implies !((
                #[trigger] longer[i]) is Disconnected) by {
                    assert(longer[i] == receptions[i]);
                    if i == receptions.len() - 1 {
                        assert(receptions[i] == receptions.last());
                    }
                }
                receptions = longer;
            }
            tally.count(reception);
        }
    }
    assert(is_sampling(receptions, clock, tally));
    tally
}

/// Frames a second over the sampling, to the nearest whole number.
pub open spec fn frames_per_second(frames: int) -> int {
    (2 * frames + SAMPLE_SECS as int) / (2 * SAMPLE_SECS as int)
}

/// What a tally shows, once the capture is not known to be gone.
pub open spec fn tally_verdict(tally: CaptureTally) -> CheckView {
    let rate = decimal(frames_per_second(tally.frames as int) as nat);
    if tally.frames == 0 {
        CheckView {
            level: Level::Warn,
            name: "capture"@,
            detail: "capture is alive but delivered 0 frames — nothing is playing on this PC (start some audio and re-run), or audio is routed to a non-default device"@,
        }
    } else if tally.audible_chunks == 0 {
        CheckView {
            level: Level::Warn,
            name: "capture"@,
            detail: rate
                + " frames/s captured but ALL silent — an app is rendering digital silence, or the wrong device is default"@,
        }
    } else {
        CheckView {
            level: Level::Pass,
            name: "capture"@,
            detail: rate + " frames/s (expect ~44100), real audio present"@,
        }
    }
}

/// What to say of a capture that went away while it was sampled.
pub open spec fn capture_death() -> CheckView {
    CheckView {
        level: Level::Fail,
        name: "capture"@,
        detail: "capture thread died mid-test (device error) — check the default output device"@,
    }
}

/// The checks that a tally comes to.
pub fn capture_checks(tally: &CaptureTally) -> (r: Vec<Check>)
    ensures
        check_views(r@) == (if tally.died {
            seq![capture_death(), tally_verdict(*tally)]
        } else {
            seq![tally_verdict(*tally)]
        }),
{
    let mut out: Vec<Check> = Vec::new();
    if tally.died {
        out.push(
            check(
                Level::Fail,
                "capture",
                "capture thread died mid-test (device error) — check the default output device",
            ),
        );
    }
    let rate: String = to_decimal(((2 * tally.frames as u128 + 5) / 10) as u64);
    if tally.frames == 0 {
        out.push(
            check(
                Level::Warn,
                "capture",
                "capture is alive but delivered 0 frames — nothing is playing on this PC (start some audio and re-run), or audio is routed to a non-default device",
            ),
        );
    } else if tally.audible_chunks == 0 {
        let detail: String = joined(
            rate.as_str(),
            " frames/s captured but ALL silent — an app is rendering digital silence, or the wrong device is default",
        );
        out.push(check(Level::Warn, "capture", detail.as_str()));
    } else {
        let detail: String = joined(
            rate.as_str(),
            " frames/s (expect ~44100), real audio present",
        );
        out.push(check(Level::Pass, "capture", detail.as_str()));
    }
    assert(check_views(out@) =~= (if tally.died {
        seq![capture_death(), tally_verdict(*tally)]
    } else {
        seq![tally_verdict(*tally)]
    }));
    out
}

/// The check of a capture that could not be opened.
pub fn capture_unopened(error: &str) -> (r: Check)
    ensures
        r@ == (CheckView {
            level: Level::Fail,
            name: "capture"@,
            detail: "could not open loopback capture: "@ + error@,
        }),
{
    let detail: String = joined("could not open loopback capture: ", error);
    check(Level::Fail, "capture", detail.as_str())
}

/// How a kind is written in the diagnosis.
pub open spec fn kind_text(kind: DeviceKind) -> Seq<char> {
    match kind {
        DeviceKind::HomePod => "HomePod"@,
        DeviceKind::AppleTv => "AppleTv"@,
        DeviceKind::OtherAirPlay => "OtherAirPlay"@,
    }
}

/// A speaker as the diagnosis lists it.
pub open spec fn listing_entry(s: Speaker) -> Seq<char> {
    s.name@ + " ("@ + kind_text(s.kind) + ", "@ + s.address.text@ + ")"@
}

/// The speakers as the diagnosis lists them.
pub open spec fn listing(speakers: Seq<Speaker>) -> Seq<char>
    decreases speakers.len(),
{
    if speakers.len() == 0 {
        Seq::empty()
    } else if speakers.len() == 1 {
        listing_entry(speakers[0])
    } else {
        listing(speakers.drop_last()) + "; "@ + listing_entry(speakers.last())
    }
}

fn append_entry(out: &mut String, s: &Speaker)
    ensures
        final(out)@ == old(out)@ + listing_entry(*s),
{
    let kind: &str = match s.kind {
        DeviceKind::HomePod => "HomePod",
        DeviceKind::AppleTv => "AppleTv",
        DeviceKind::OtherAirPlay => "OtherAirPlay",
    };
    out.append(s.name.as_str());
    out.append(" (");
    out.append(kind);
    out.append(", ");
    out.append(s.address.text.as_str());
    out.append(")");
    assert(out@ =~= old(out)@ + listing_entry(*s));
}

/// What the speakers that were found come to.
pub open spec fn discovery_verdict(speakers: Seq<Speaker>) -> CheckView {
    if speakers.len() == 0 {
        CheckView {
            level: Level::Fail,
            name: "discovery"@,
            detail: "no AirPlay 2 devices found in 3s — check that the PC and HomePod share a network and multicast/mDNS isn't blocked"@,
        }
    } else {
        CheckView { level: Level::Pass, name: "discovery"@, detail: listing(speakers) }
    }
}

/// The check of what discovery found.
pub fn discovery_check(speakers: &Vec<Speaker>) -> (r: Check)
    ensures
        r@ == discovery_verdict(speakers@),
{
    if speakers.len() == 0 {
        return check(
            Level::Fail,
            "discovery",
            "no AirPlay 2 devices found in 3s — check that the PC and HomePod share a network and multicast/mDNS isn't blocked",
        );
    }
    let mut out: String = String::new();
    let mut i: usize = 0;
    assert(listing(speakers@.take(0)) =~= Seq::empty());
    while i < speakers.len()
        invariant
            i <= speakers.len(),
            out@ == listing(speakers@.take(i as int)),
        decreases speakers.len() - i,
    {
        if i > 0 {
            out.append("; ");
        }
        append_entry(&mut out, &speakers[i]);
        proof {
            assert(speakers@.take(i + 1).drop_last() =~= speakers@.take(i as int));
            assert(speakers@.take(i + 1).last() == speakers@[i as int]);
            assert(out@ =~= listing(speakers@.take(i + 1)));
        }
        i = i + 1;
    }
    assert(speakers@.take(speakers.len() as int) =~= speakers@);
    check(Level::Pass, "discovery", out.as_str())
}

/// The HomePods among the speakers.
pub open spec fn homepods(speakers: Seq<Speaker>) -> Seq<Speaker>
    decreases speakers.len(),
{
    if speakers.len() == 0 {
        Seq::empty()
    } else if speakers.last().kind == DeviceKind::HomePod {
        homepods(speakers.drop_last()).push(speakers.last())
    } else {
        homepods(speakers.drop_last())
    }
}

/// The HomePods among the speakers.
pub fn homepods_of(speakers: &Vec<Speaker>) -> (r: Vec<Speaker>)
    ensures
        r@ == homepods(speakers@),
{
    let mut out: Vec<Speaker> = Vec::new();
    let mut i: usize = 0;
    while i < speakers.len()
        invariant
            i <= speakers.len(),
            out@ == homepods(speakers@.take(i as int)),
        decreases speakers.len() - i,
    {
        assert(speakers@.take(i + 1).drop_last() =~= speakers@.take(i as int));
        if speakers[i].kind == DeviceKind::HomePod {
            out.push(speakers[i].copy());
        }
        i = i + 1;
    }
    assert(speakers@.take(speakers.len() as int) =~= speakers@);
    out
}

/// A word to pick the speaker of this name by: the first one of the name, in
/// lower case.
pub open spec fn pick_word(name: Seq<char>) -> Seq<char> {
    let first = word(left_trimmed(name));
    lowercase(
        if first.len() == 0 {
            "kitchen"@
        } else {
            first
        },
    )
}

/// A word to pick the speaker of this name by.
pub fn word_to_pick(name: &str) -> (r: String)
    ensures
        r@ == pick_word(name@),
{
    let chars: Vec<char> = chars_of(name);
    let first: Vec<char> = first_run(&trim_left(&chars));
    if first.len() == 0 {
        to_lower("kitchen")
    } else {
        to_lower(text_of(&first).as_str())
    }
}

/// What to say where there are several HomePods, of which one can be picked by
/// `word`.
pub open spec fn several_homepods(count: nat, word: Seq<char>) -> CheckView {
    CheckView {
        level: Level::Info,
        name: "target"@,
        detail: decimal(count)
            + " HomePods found — re-run as 'playfruit doctor <name>' (e.g. doctor "@ + word
            + ") to pick one for the live clock-sync test"@,
    }
}

/// Says that there are several HomePods.
pub fn say_several(count: usize, word: &str) -> (r: Check)
    ensures
        r@ == several_homepods(count as nat, word@),
{
    let mut detail: String = joined3(
        to_decimal(count as u64).as_str(),
        " HomePods found — re-run as 'playfruit doctor <name>' (e.g. doctor ",
        word,
    );
    detail.append(") to pick one for the live clock-sync test");
    check(Level::Info, "target", detail.as_str())
}

/// The device of the live test.
#[derive(Debug)]
pub struct Target {
    pub address: Option<Address>,
    /// How it was come by.
    pub note: Option<Check>,
}

/// A target, with its text as characters.
pub struct TargetView {
    pub address: Option<Address>,
    pub note: Option<CheckView>,
}

impl View for Target {
    type V = TargetView;

    open spec fn view(&self) -> TargetView {
        TargetView { address: self.address, note: check_view(self.note) }
    }
}

/// The target that the `at`th speaker makes, which the user meant by `wanted`.
pub open spec fn named_choice(
    wanted: Seq<char>,
    speakers: Seq<Speaker>,
    at: Option<int>,
) -> TargetView {
    match at {
        Some(i) => TargetView {
            address: Some(speakers[i].address),
            note: Some(
                CheckView {
                    level: Level::Info,
                    name: "target"@,
                    detail: "matched '"@ + wanted + "' to "@ + speakers[i].name@ + " ("@
                        + speakers[i].address.text@ + ")"@,
                },
            ),
        },
        None => TargetView {
            address: None,
            note: Some(
                CheckView {
                    level: Level::Fail,
                    name: "target"@,
                    detail: "no discovered device matches '"@ + wanted
                        + "' — see the discovery list above"@,
                },
            ),
        },
    }
}

/// The target that nobody named: the only HomePod, and none where there are
/// several, so that no speaker is taken over unasked.
pub open spec fn default_choice(speakers: Seq<Speaker>) -> TargetView {
    let pods = homepods(speakers);
    if pods.len() == 1 {
        TargetView {
            address: Some(pods[0].address),
            note: Some(
                CheckView {
                    level: Level::Info,
                    name: "target"@,
                    detail: "one HomePod found — testing against "@ + pods[0].name@ + " ("@
                        + pods[0].address.text@ + ")"@,
                },
            ),
        }
    } else if pods.len() > 1 {
        TargetView {
            address: None,
            note: Some(several_homepods(pods.len(), pick_word(pods[0].name@))),
        }
    } else {
        TargetView { address: None, note: None }
    }
}

/// The target: what the user named, by address or by a fragment of its name, or
/// else the only HomePod.
pub open spec fn choice(
    wanted: Option<String>,
    as_address: Option<Address>,
    speakers: Seq<Speaker>,
) -> TargetView {
    match wanted {
        Some(w) => match as_address {
            Some(a) => TargetView { address: Some(a), note: None },
            None => named_choice(w@, speakers, first_true(speakers_meant(speakers, w@))),
        },
        None => default_choice(speakers),
    }
}

/// The target at the `at`th speaker, which the user meant by `wanted`.
pub fn named_target(wanted: &str, speakers: &Vec<Speaker>, at: Option<usize>) -> (t: Target)
    requires
        at matches Some(i) ==> i < speakers.len(),
    ensures
        t@ == named_choice(
            wanted@,
            speakers@,
            match at {
                Some(i) => Some(i as int),
                None => None,
            },
        ),
{
    match at {
        Some(i) => {
            let sp: &Speaker = &speakers[i];
            let mut detail: String = joined3("matched '", wanted, "' to ");
            detail.append(sp.name.as_str());
            detail.append(" (");
            detail.append(sp.address.text.as_str());
            detail.append(")");
            Target {
                address: Some(sp.address.copy()),
                note: Some(check(Level::Info, "target", detail.as_str())),
            }
        },
        None => {
            let detail: String = joined3(
                "no discovered device matches '",
                wanted,
                "' — see the discovery list above",
            );
            Target { address: None, note: Some(check(Level::Fail, "target", detail.as_str())) }
        },
    }
}

/// The target that nobody named.
pub fn default_target(speakers: &Vec<Speaker>) -> (t: Target)
    ensures
        t@ == default_choice(speakers@),
{
    let pods: Vec<Speaker> = homepods_of(speakers);
    if pods.len() == 1 {
        let mut detail: String = joined3(
            "one HomePod found — testing against ",
            pods[0].name.as_str(),
            " (",
        );
        detail.append(pods[0].address.text.as_str());
        detail.append(")");
        Target {
            address: Some(pods[0].address.copy()),
            note: Some(check(Level::Info, "target", detail.as_str())),
        }
    } else if pods.len() > 1 {
        let word: String = word_to_pick(pods[0].name.as_str());
        Target { address: None, note: Some(say_several(pods.len(), word.as_str())) }
    } else {
        Target { address: None, note: None }
    }
}

/// The device of the live test: what the user named, by address or by a fragment
/// of its name, or else the only HomePod. `as_address` is the address that the
/// user's text spells, if it spells one.
pub fn choose_target(
    wanted: &Option<String>,
    as_address: Option<Address>,
    speakers: &Vec<Speaker>,
) -> (t: Target)
    ensures
        t@ == choice(*wanted, as_address, speakers@),
{
    match wanted {
        Some(w) => match as_address {
            Some(a) => Target { address: Some(a), note: None },
            None => {
                proof {
                    crate::devices::law_first_true_is_the_first(speakers_meant(speakers@, w@));
                }
                let at: Option<usize> = find_speaker(speakers, w.as_str());
                named_target(w.as_str(), speakers, at)
            },
        },
        None => default_target(speakers),
    }
}

/// What to say in the place of a live test that nobody asked for and for which
/// there is no device.
pub open spec fn skip_note(was_named: bool, speakers: Seq<Speaker>) -> Option<CheckView> {
    if was_named || homepods(speakers).len() == 1 {
        None
    } else if homepods(speakers).len() == 0 {
        Some(
            CheckView {
                level: Level::Skip,
                name: "session"@,
                detail: "no HomePod found to test against"@,
            },
        )
    } else {
        Some(
            CheckView {
                level: Level::Skip,
                name: "session"@,
                detail: "multiple HomePods — pick one by name to run the live test"@,
            },
        )
    }
}

/// What to say in the place of the live test where there is none.
pub fn session_skipped(was_named: bool, speakers: &Vec<Speaker>) -> (r: Option<Check>)
    ensures
        check_view(r) == skip_note(was_named, speakers@),
{
    let pods: usize = homepods_of(speakers).len();
    if was_named || pods == 1 {
        None
    } else if pods == 0 {
        Some(check(Level::Skip, "session", "no HomePod found to test against"))
    } else {
        Some(
            check(
                Level::Skip,
                "session",
                "multiple HomePods — pick one by name to run the live test",
            ),
        )
    }
}

/// A check that may be there.
pub open spec fn if_any(c: Option<CheckView>) -> Seq<CheckView> {
    match c {
        Some(v) => seq![v],
        None => Seq::empty(),
    }
}

/// The checks from discovery up to the live test: what was found, what the test
/// will run against, and why there is none.
pub open spec fn device_checks(
    devices: Seq<Device>,
    wanted: Option<String>,
    as_address: Option<Address>,
) -> Seq<CheckView> {
    let speakers = reachable(devices);
    let target = choice(wanted, as_address, speakers);
    seq![discovery_verdict(speakers)] + if_any(target.note) + (if target.address is None {
        if_any(skip_note(wanted is Some, speakers))
    } else {
        Seq::empty()
    })
}

fn push_if_any(out: &mut Vec<Check>, c: Option<Check>)
    ensures
        check_views(final(out)@) == check_views(old(out)@) + if_any(check_view(c)),
{
    match c {
        Some(one) => {
            out.push(one);
        },
        None => {},
    }
    assert(check_views(out@) =~= check_views(old(out)@) + if_any(check_view(c)));
}

/// Examines what discovery found: the checks to add, and the address of the live
/// test, if there is to be one. `as_address` is the address that the user's text
/// spells, if it spells one.
pub fn examine_devices(
    devices: &Vec<Device>,
    wanted: &Option<String>,
    as_address: Option<Address>,
) -> (r: (Vec<Check>, Option<Address>))
    ensures
        check_views(r.0@) == device_checks(devices@, *wanted, as_address),
        r.1 == choice(*wanted, as_address, reachable(devices@)).address,
{
    let speakers: Vec<Speaker> = reachable_speakers(devices);
    let mut out: Vec<Check> = Vec::new();
    out.push(discovery_check(&speakers));
    assert(check_views(out@) =~= seq![discovery_verdict(speakers@)]);
    let target: Target = choose_target(wanted, as_address, &speakers);
    push_if_any(&mut out, target.note);
    if target.address.is_none() {
        push_if_any(&mut out, session_skipped(wanted.is_some(), &speakers));
    }
    assert(check_views(out@) =~= device_checks(devices@, *wanted, as_address));
    (out, target.address)
}

/// Nobody's speaker is taken over unasked: without a name, the live test has a
/// target exactly when there is one HomePod, and it is that one. Where there is
/// none or several, the diagnosis says that the test was skipped.
pub proof fn law_no_speaker_is_taken_over(devices: Seq<Device>)
    ensures
        ({
            let speakers = reachable(devices);
            let t = choice(None, None, speakers);
            &&& t.address is Some <==> homepods(speakers).len() == 1
            &&& t.address matches Some(a) ==> a == homepods(speakers)[0].address && homepods(
                speakers,
            )[0].kind == DeviceKind::HomePod
            &&& t.address is None ==> device_checks(devices, None, None).last().level == Level::Skip
        }),
{
    lemma_homepods_are_homepods(reachable(devices));
}

/// A name that fits no device is a failure; and a live test that a user asked
/// for is never skipped without one.
pub proof fn law_unknown_name_fails(devices: Seq<Device>, wanted: String)
    requires
        choice(Some(wanted), None, reachable(devices)).address is None,
    ensures
        device_checks(devices, Some(wanted), None).last().level == Level::Fail,
{
}

proof fn lemma_homepods_are_homepods(speakers: Seq<Speaker>)
    ensures
        forall|i: int|
            0 <= i < homepods(speakers).len() ==> (#[trigger] homepods(speakers)[i]).kind
                == DeviceKind::HomePod,
    decreases speakers.len(),
{
    if speakers.len() > 0 {
        lemma_homepods_are_homepods(speakers.drop_last());
    }
}

/// The check whether the device can be reached at all; `error` says why not.
pub fn reachability_check(address: &str, error: &Option<String>) -> (r: Check)
    ensures
        r@ == (match error {
            None => CheckView {
                level: Level::Pass,
                name: "reachability"@,
                detail: address@ + ":7000 reachable"@,
            },
            Some(e) => CheckView {
                level: Level::Fail,
                name: "reachability"@,
                detail: "cannot reach "@ + address@ + ":7000 — "@ + e@,
            },
        }),
{
    match error {
        None => {
            let detail: String = joined(address, ":7000 reachable");
            check(Level::Pass, "reachability", detail.as_str())
        },
        Some(e) => {
            let mut detail: String = joined3("cannot reach ", address, ":7000 — ");
            detail.append(e.as_str());
            check(Level::Fail, "reachability", detail.as_str())
        },
    }
}

/// How long the live test lasts, in seconds.
pub const SESSION_SECS: u64 = 12;

/// How many clock-sync queries came in, where a session that did not count them
/// had none.
pub open spec fn queries_counted(queries: Option<u64>) -> u64 {
    match queries {
        Some(n) => n,
        None => 0,
    }
}

/// What the live test shows: how many clock-sync queries came in, if they were
/// counted, or why there was no session. The queries decide it: without them,
/// the stream is silent.
pub fn session_check(outcome: &Result<Option<u64>, String>) -> (r: Check)
    ensures
        r@ == (match outcome {
            Ok(queries) => if queries_counted(*queries) == 0 {
                CheckView {
                    level: Level::Fail,
                    name: "clock-sync"@,
                    detail: "0 timing requests received in "@ + decimal(SESSION_SECS as nat)
                        + "s — the HomePod CANNOT reach this PC (this is the silent-stream cause). Almost always Windows Firewall: re-run 'Enable firewall access', and check the network profile above."@,
                }
            } else {
                CheckView {
                    level: Level::Pass,
                    name: "clock-sync"@,
                    detail: decimal(queries_counted(*queries) as nat) + " timing requests answered in "@ + decimal(
                        SESSION_SECS as nat,
                    ) + "s — receiver can sync; audio path is healthy"@,
                }
            },
            Err(e) => CheckView {
                level: Level::Fail,
                name: "session"@,
                detail: "could not establish a session: "@ + e@,
            },
        }),
{
    match outcome {
        Ok(queries) => {
            let secs: String = to_decimal(SESSION_SECS);
            let queries: u64 = match queries {
                Some(n) => *n,
                None => 0,
            };
            if queries == 0 {
                let detail: String = joined3(
                    "0 timing requests received in ",
                    secs.as_str(),
                    "s — the HomePod CANNOT reach this PC (this is the silent-stream cause). Almost always Windows Firewall: re-run 'Enable firewall access', and check the network profile above.",
                );
                check(Level::Fail, "clock-sync", detail.as_str())
            } else {
                let mut detail: String = joined3(
                    to_decimal(queries).as_str(),
                    " timing requests answered in ",
                    secs.as_str(),
                );
                detail.append("s — receiver can sync; audio path is healthy");
                check(Level::Pass, "clock-sync", detail.as_str())
            }
        },
        Err(e) => {
            let detail: String = joined("could not establish a session: ", e.as_str());
            check(Level::Fail, "session", detail.as_str())
        },
    }
}

} // verus!
