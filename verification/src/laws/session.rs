//! How a session is kept up, in plain numbers.

use crate::capture::Glance;
use crate::devices::Speaker;
use crate::health::{report_status, Beat, Health, Report};
use crate::mute::{MuteGuard, MuteState, MuteStep};
use crate::pump::PumpExit;
use crate::rig::Deed;
use crate::session::{as_looks, discards, is_precharge};
use crate::settings::{
    config_base, ConfigBase, EngineConfig, LatencyProfile, Settings, Volume,
};
use crate::status::StatusView;
use crate::supervisor::{Event, Next, Supervisor};
use vstd::prelude::*;

verus! {

/// A tick of the mute guard: the session's age, whether real audio is coming in,
/// and when the last of it came.
pub struct Tick {
    pub age_ms: u64,
    pub playing: bool,
    pub last_audio_ms: u64,
}

/// The guard after a series of ticks.
pub open spec fn ticked(g: MuteGuard, ticks: Seq<Tick>) -> MuteGuard
    decreases ticks.len(),
{
    if ticks.len() == 0 {
        g
    } else {
        let t = ticks.last();
        ticked(g, ticks.drop_last()).moved(t.age_ms, t.playing, t.last_audio_ms)
    }
}

/// The tick tells of real audio that came more than half a second after the mute
/// at `since_ms`, and so came through it.
pub open spec fn tells_of_audio_through(t: Tick, since_ms: u64) -> bool {
    t.last_audio_ms != u64::MAX && t.last_audio_ms > since_ms + 500
}

/// The tick comes four seconds after the mute at `since_ms`, or later.
pub open spec fn is_late(t: Tick, since_ms: u64) -> bool {
    t.age_ms >= since_ms + 4000
}

/// Some tick up to now was late, with no audio through the mute told of up to it.
pub open spec fn was_rolled_back(ticks: Seq<Tick>, since_ms: u64) -> bool {
    exists|j: int|
        0 <= j < ticks.len() && is_late(#[trigger] ticks[j], since_ms) && forall|i: int|
            0 <= i <= j ==> !tells_of_audio_through(#[trigger] ticks[i], since_ms)
}

/// Some tick up to now told of audio through the mute.
pub open spec fn was_heard(ticks: Seq<Tick>, since_ms: u64) -> bool {
    exists|j: int|
        0 <= j < ticks.len() && tells_of_audio_through(#[trigger] ticks[j], since_ms)
}

proof fn lemma_muted_life(g: MuteGuard, before: bool, since_ms: u64, ticks: Seq<Tick>)
    requires
        g.state == (MuteState::Muted { before, since_ms, proven: false }),
    ensures
        ticked(g, ticks).wanted == g.wanted,
        ticked(g, ticks).state == if was_rolled_back(ticks, since_ms) {
            MuteState::GivenUp
        } else {
            MuteState::Muted { before, since_ms, proven: was_heard(ticks, since_ms) }
        },
    decreases ticks.len(),
{
    if ticks.len() > 0 {
        let init = ticks.drop_last();
        let n = ticks.len() - 1;
        let t = ticks.last();
        lemma_muted_life(g, before, since_ms, init);
        assert(ticks[n] == t);
        if was_rolled_back(init, since_ms) {
            let j = choose|j: int|
                0 <= j < init.len() && is_late(#[trigger] init[j], since_ms) && forall|i: int|
                    0 <= i <= j ==> !tells_of_audio_through(#[trigger] init[i], since_ms);
            assert(ticks[j] == init[j]);
            assert forall|i: int| 0 <= i <= j implies !tells_of_audio_through(
                #[trigger] ticks[i],
                since_ms,
            ) by {
                assert(ticks[i] == init[i]);
            }
        } else {
            if was_heard(init, since_ms) {
                let j = choose|j: int|
                    0 <= j < init.len() && tells_of_audio_through(#[trigger] init[j], since_ms);
                assert(ticks[j] == init[j]);
            }
            if was_heard(ticks, since_ms) && !tells_of_audio_through(t, since_ms) {
                let j = choose|j: int|
                    0 <= j < ticks.len() && tells_of_audio_through(#[trigger] ticks[j], since_ms);
                assert(init[j] == ticks[j]);
            }
            if was_rolled_back(ticks, since_ms) {
                let j = choose|j: int|
                    0 <= j < ticks.len() && is_late(#[trigger] ticks[j], since_ms) && forall|i: int|
                        0 <= i <= j ==> !tells_of_audio_through(#[trigger] ticks[i], since_ms);
                if j < n {
                    assert(init[j] == ticks[j]);
                    assert forall|i: int| 0 <= i <= j implies !tells_of_audio_through(
                        #[trigger] init[i],
                        since_ms,
                    ) by {
                        assert(init[i] == ticks[i]);
                    }
                }
                assert(j == n);
                assert forall|i: int| 0 <= i < init.len() implies !tells_of_audio_through(
                    #[trigger] init[i],
                    since_ms,
                ) by {
                    assert(init[i] == ticks[i]);
                }
            } else if !was_heard(init, since_ms) && is_late(t, since_ms) {
                assert forall|i: int| 0 <= i <= n && !tells_of_audio_through(t, since_ms) implies !tells_of_audio_through(
                    #[trigger] ticks[i],
                    since_ms,
                ) by {
                    if i < n {
                        assert(ticks[i] == init[i]);
                    }
                }
            }
        }
    }
}

/// A mute is undone exactly when it silences the capture. Whatever the ticks
/// since the mute, one of them rolls it back, to the state that the output was
/// in, if and only if it is the first that comes four seconds after the mute or
/// later, and neither it nor any before it told of real audio from more than half
/// a second after the mute. All others leave the output alone.
pub proof fn law_mute_is_undone_exactly_when_it_silences_the_capture(
    g: MuteGuard,
    before: bool,
    since_ms: u64,
    ticks: Seq<Tick>,
    k: int,
)
    requires
        g.state == (MuteState::Muted { before, since_ms, proven: false }),
        0 <= k < ticks.len(),
    ensures
        ({
            let silenced = forall|j: int|
                0 <= j <= k ==> !((#[trigger] ticks[j]).last_audio_ms != u64::MAX
                    && ticks[j].last_audio_ms > since_ms + 500);
            let first_late = ticks[k].age_ms >= since_ms + 4000 && forall|j: int|
                0 <= j < k ==> (#[trigger] ticks[j]).age_ms < since_ms + 4000;
            ticked(g, ticks.take(k)).step(
                ticks[k].age_ms,
                ticks[k].playing,
                ticks[k].last_audio_ms,
            ) == if silenced && first_late {
                MuteStep::RollBack { before }
            } else {
                MuteStep::Leave
            }
        }),
{
    let seen = ticks.take(k);
    let t = ticks[k];
    lemma_muted_life(g, before, since_ms, seen);
    assert(forall|j: int| 0 <= j < k ==> seen[j] == #[trigger] ticks[j]);
    let silenced = forall|j: int|
        0 <= j <= k ==> !((#[trigger] ticks[j]).last_audio_ms != u64::MAX
            && ticks[j].last_audio_ms > since_ms + 500);
    let first_late = ticks[k].age_ms >= since_ms + 4000 && forall|j: int|
        0 <= j < k ==> (#[trigger] ticks[j]).age_ms < since_ms + 4000;
    if was_rolled_back(seen, since_ms) {
        let j = choose|j: int|
            0 <= j < seen.len() && is_late(#[trigger] seen[j], since_ms) && forall|i: int|
                0 <= i <= j ==> !tells_of_audio_through(#[trigger] seen[i], since_ms);
        assert(ticks[j].age_ms >= since_ms + 4000);
    } else if was_heard(seen, since_ms) {
        let j = choose|j: int|
            0 <= j < seen.len() && tells_of_audio_through(#[trigger] seen[j], since_ms);
        assert(ticks[j].last_audio_ms > since_ms + 500);
        assert(!silenced);
    } else {
        assert forall|j: int| 0 <= j < k implies !((#[trigger] ticks[j]).last_audio_ms != u64::MAX
            && ticks[j].last_audio_ms > since_ms + 500) by {
            assert(!tells_of_audio_through(seen[j], since_ms));
        }
        assert forall|j: int| 0 <= j < k implies (#[trigger] ticks[j]).age_ms < since_ms + 4000 by {
            if is_late(seen[j], since_ms) {
                assert forall|i: int| 0 <= i <= j implies !tells_of_audio_through(
                    #[trigger] seen[i],
                    since_ms,
                ) by {}
                assert(was_rolled_back(seen, since_ms));
            }
        }
    }
}

/// The speakers are muted exactly where the user wants it, as soon as real audio
/// comes in, and only as long as this session has neither muted them nor given
/// up; until then, a tick changes nothing.
pub proof fn law_mute_begins_with_the_audio(g: MuteGuard, t: Tick)
    ensures
        g.step(t.age_ms, t.playing, t.last_audio_ms) == MuteStep::Mute <==> g.state
            == MuteState::Open && g.wanted && t.playing,
        g.state == MuteState::Open || g.state == MuteState::GivenUp ==> g.moved(
            t.age_ms,
            t.playing,
            t.last_audio_ms,
        ) == g,
        MuteGuard::fresh(true) == (MuteGuard { wanted: true, state: MuteState::Open }),
        MuteGuard::fresh(false) == (MuteGuard { wanted: false, state: MuteState::Open }),
{
}

/// Real audio is recent when it came less than three seconds ago, or after the
/// age was read.
pub proof fn law_recent_is_three_seconds(beat: Beat, r: bool)
    requires
        call_ensures(Beat::playing, (&beat,), r),
    ensures
        r <==> beat.last_audio_ms != u64::MAX && beat.age_nanos as int / 1_000_000
            - beat.last_audio_ms < 3000,
{
}

/// What one heartbeat changes and tells, in plain numbers. The third in a row
/// that goes unanswered is the end, and tells nothing. A receiver that has asked
/// for the time not once in more than ten seconds is warned of, once. Until then,
/// and once the session is older than five seconds, silence is told when nothing
/// was heard in the last three seconds and the user thinks otherwise, and its end
/// likewise.
pub proof fn law_heartbeat_in_plain_numbers(h: Health, beat: Beat, name: Seq<char>)
    requires
        h.strikes < 3,
    ensures
        ({
            let after = h.moved(beat);
            let told = h.report(beat);
            let dies = !beat.answered && h.strikes == 2;
            let age = beat.age_nanos as int;
            let deaf = age > 10_000_000_000 && beat.timing_requests == Some(0u64);
            let playing = beat.last_audio_ms != u64::MAX && age / 1_000_000 - beat.last_audio_ms
                < 3000;
            &&& h.dies(beat) == dies
            &&& after.strikes == if beat.answered {
                0
            } else {
                h.strikes + 1
            }
            &&& told == Some(Report::Unreachable) <==> !dies && !h.timing_warned && deaf
            &&& told == Some(Report::Silent) <==> !dies && !h.timing_warned && !deaf && age
                > 5_000_000_000 && !playing && !h.silent_reported
            &&& told == Some(Report::Playing) <==> !dies && !h.timing_warned && !deaf && age
                > 5_000_000_000 && playing && h.silent_reported
            &&& after.timing_warned <==> h.timing_warned || told == Some(Report::Unreachable)
            &&& after.silent_reported <==> told == Some(Report::Silent) || (h.silent_reported
                && told != Some(Report::Playing))
            &&& report_status(Report::Silent, name) == StatusView::StreamingSilent(name)
            &&& report_status(Report::Playing, name) == StatusView::Streaming(name)
            &&& report_status(Report::Unreachable, name) matches StatusView::Warning(n, _) && n
                == name
            &&& Health::fresh() == (Health {
                strikes: 0,
                silent_reported: false,
                timing_warned: false,
            })
        }),
{
}

/// What each event changes, and what it does not. The number of the attempt goes
/// up with each attempt, and a session of more than a minute that died sets it
/// back to one. A wait lasts as long as the backoff, which each wait doubles, up
/// to thirty seconds, and which such a session sets back to one second first.
/// Only a session that came up is remembered as one.
pub proof fn law_what_each_event_changes(s: Supervisor, event: Event)
    requires
        1 <= s.backoff_secs <= 30,
        s.attempt < u32::MAX,
    ensures
        ({
            let after = s.moved(event);
            let hopeless = !s.ever_connected && s.attempt >= 3;
            let died = event matches Event::SessionOver { exit, .. } && exit
                == PumpExit::SessionDead;
            let healthy = event matches Event::SessionOver { exit, lasted_nanos } && exit
                == PumpExit::SessionDead && lasted_nanos > 60_000_000_000;
            let wait = if healthy {
                1
            } else {
                s.backoff_secs as int
            };
            let waits = (event is ConnectFailed && !hopeless) || died;
            &&& after.attempt == if event == (Event::Ready { stop: false }) {
                s.attempt + 1
            } else if healthy {
                1
            } else {
                s.attempt as int
            }
            &&& after.ever_connected <==> s.ever_connected || event == Event::Connected
            &&& after.backoff_secs == if !waits {
                s.backoff_secs as int
            } else if wait * 2 <= 30 {
                wait * 2
            } else {
                30
            }
            &&& waits <==> s.next(event) is Wait
            &&& waits ==> s.next(event) == (Next::Wait { secs: wait as u64 })
            &&& s.next(event) == Next::Connect <==> event == (Event::Ready { stop: false })
            &&& s.next(event) == Next::Stream <==> event == Event::Connected
            &&& s.next(event) == Next::Finish <==> {
                ||| event is CaptureFailed
                ||| event is Interrupted
                ||| event == (Event::Ready { stop: true })
                ||| event is ConnectFailed && hopeless
                ||| event is SessionOver && !died
            }
            &&& Supervisor::fresh() == (Supervisor {
                attempt: 0,
                ever_connected: false,
                backoff_secs: 1,
            })
        }),
{
}

/// What each event has the user told: the device by its name, an attempt by its
/// number from the second on, a failure with its reason, a stop as such; and
/// nothing where the engine only waits.
pub proof fn law_what_each_event_tells(
    s: Supervisor,
    event: Event,
    name: Seq<char>,
    address: Seq<char>,
)
    requires
        s.attempt < u32::MAX,
    ensures
        ({
            let told = s.told(event, name, address);
            match event {
                Event::CaptureFailed(e) => told == Some(
                    StatusView::Failed("audio capture: "@ + e@),
                ),
                Event::Ready { stop } => told == Some(
                    if stop {
                        StatusView::Stopped
                    } else if s.attempt == 0 {
                        StatusView::Connecting(name)
                    } else {
                        StatusView::Reconnecting(name, (s.attempt + 1) as u32)
                    },
                ),
                Event::ConnectFailed(e) => if !s.ever_connected && s.attempt >= 3 {
                    told == Some(
                        StatusView::Failed("could not connect to "@ + address + ": "@ + e@),
                    )
                } else {
                    told is None
                },
                Event::Interrupted => told == Some(StatusView::Stopped),
                Event::Connected => told == Some(StatusView::Streaming(name)),
                Event::SessionOver { exit, .. } => match exit {
                    PumpExit::Stopped => told == Some(StatusView::Stopped),
                    PumpExit::CaptureDied => told matches Some(StatusView::Failed(_)),
                    PumpExit::SessionDead => told is None,
                },
            }
        }),
{
}

/// What a discarding series of looks is: every chunk that was there is taken, and
/// the look that ends it finds none.
pub proof fn law_discarding_empties_the_channel(looks: Seq<Glance>, count: u32, end: Glance)
    requires
        count < u32::MAX,
    ensures
        discards(looks, count, end) <==> {
            &&& looks.len() == count + 1
            &&& forall|i: int| 0 <= i < count ==> (#[trigger] looks[i]) is Frame
            &&& looks[count as int] == end
            &&& !(end is Frame)
        },
        as_looks(looks).len() == looks.len(),
        forall|i: int|
            0 <= i < looks.len() ==> #[trigger] as_looks(looks)[i] == Deed::Looked(looks[i]),
{
}

/// The standing fill is fifteen chunks of 882 frames of nothing, in the stream's
/// own format.
pub proof fn law_standing_fill_is_300_ms(deeds: Seq<Deed>, channels: u8, sample_rate: u32)
    requires
        is_precharge(deeds, channels, sample_rate),
    ensures
        deeds.len() == 15,
        forall|i: int|
            0 <= i < 15 ==> (#[trigger] deeds[i] matches Deed::Sent { frame, .. }
                && frame.samples@.len() == 882 * channels && (forall|k: int|
                0 <= k < frame.samples@.len() ==> frame.samples@[k] == 0) && frame.channels
                == channels && frame.sample_rate == sample_rate),
{
    assert forall|i: int| 0 <= i < 15 implies (#[trigger] deeds[i] matches Deed::Sent { frame, .. }
        && frame.samples@.len() == 882 * channels && (forall|k: int|
        0 <= k < frame.samples@.len() ==> frame.samples@[k] == 0) && frame.channels == channels
        && frame.sample_rate == sample_rate) by {
        assert(crate::session::is_fill(deeds[i], channels, sample_rate));
    }
}

/// A volume is held to its range by the bits of its number: what is above one
/// becomes one, what is below zero becomes zero, and the rest stays.
pub proof fn law_volume_is_clamped(v: Volume, r: Volume)
    requires
        v.is_number(),
        call_ensures(Volume::clamped, (v,), r),
    ensures
        v.bits <= 0x3F80_0000 ==> r == v,
        0x3F80_0000 < v.bits < 0x8000_0000 ==> r.bits == 0x3F80_0000,
        v.bits == 0x8000_0000 ==> r == v,
        v.bits > 0x8000_0000 ==> r.bits == 0,
{
}

/// The bits of a number are those up to positive infinity, with or without the
/// sign.
pub proof fn law_numbers_end_at_infinity(v: Volume, r: bool)
    requires
        call_ensures(Volume::numeric, (v,), r),
    ensures
        r <==> v.bits <= 0x7F80_0000 || 0x8000_0000 <= v.bits <= 0xFF80_0000,
        r == v.is_number(),
{
}

/// A session takes its speaker's address, port and name, and the settings'
/// volume, latency and mute, each as it is.
pub proof fn law_session_takes_each_setting(s: Settings, sp: Speaker, r: EngineConfig)
    requires
        call_ensures(Settings::session_with, (&s, &sp), r),
    ensures
        r.address == sp.address,
        r.port == sp.port,
        r.name == sp.name,
        r.volume == s.volume,
        r.latency == s.latency,
        r.mute_local == s.mute_local,
{
}

/// A first run has half the volume, the video profile, and the PC's speakers
/// muted, and remembers no speaker.
pub proof fn law_first_settings(r: Settings)
    requires
        call_ensures(<Settings as Default>::default, (), r),
    ensures
        r.volume.bits == 0x3F00_0000,
        r.latency == LatencyProfile::Video,
        r.mute_local,
        r.last_ip is None,
        r.last_name is None,
{
}

/// Settings and logs go by `APPDATA` where it is set, else by `HOME` where that
/// is, else to a temporary place.
pub proof fn law_where_settings_go(has_appdata: bool, has_home: bool, r: ConfigBase)
    requires
        call_ensures(config_base, (has_appdata, has_home), r),
    ensures
        r == ConfigBase::AppData <==> has_appdata,
        r == ConfigBase::HomeConfig <==> has_home && !has_appdata,
        r == ConfigBase::Temporary <==> !has_home && !has_appdata,
{
}

} // verus!
