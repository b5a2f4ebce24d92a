//! What is drawn, clicked and printed, in plain numbers.

use crate::click::{track_chunk, track_len, ClickChunk, CLICK_PRECHARGE_CHUNKS};
use crate::icon::{drawn, edge_allows, edge_opacity, make_icon, IconState};
use crate::numbers::decimal;
use crate::status::{cli_report, CliNext, CliReport, EngineStatus};
use vstd::prelude::*;
use vstd::string::*;

verus! {

proof fn lemma_edge(q: int, a: int)
    requires
        0 <= a,
    ensures
        0 <= edge_opacity(q, a) <= a,
        edge_opacity(q, a) > 0 ==> edge_allows(q, edge_opacity(q, a)),
        forall|b: int| edge_opacity(q, a) < b <= a ==> !#[trigger] edge_allows(q, b),
    decreases a,
{
    if a > 0 && !edge_allows(q, a) {
        lemma_edge(q, a - 1);
    }
}

/// The icon, pixel by pixel, from the top left: a disc of eleven pixels around the
/// centre in the colour of the state, a white ring of two around it, and an edge
/// of one that fades out, as opaque as its distance from the outside; and nothing
/// beyond.
pub proof fn law_icon_pixel_by_pixel(state: IconState, rgba: Vec<u8>, x: int, y: int)
    requires
        call_ensures(make_icon, (state,), rgba),
        0 <= x < 32,
        0 <= y < 32,
    ensures
        rgba@.len() == 4096,
        ({
            let n = 4 * (32 * y + x);
            let q = (2 * x - 31) * (2 * x - 31) + (2 * y - 31) * (2 * y - 31);
            let (r, g, b, a) = (rgba@[n], rgba@[n + 1], rgba@[n + 2], rgba@[n + 3]);
            &&& q < 4 * 11 * 11 ==> (r, g, b, a) == match state {
                IconState::Idle => (142u8, 142u8, 147u8, 255u8),
                IconState::Busy => (255u8, 204u8, 0u8, 255u8),
                IconState::Streaming => (52u8, 199u8, 89u8, 255u8),
                IconState::Silent => (168u8, 224u8, 182u8, 255u8),
                IconState::Failed => (255u8, 59u8, 48u8, 255u8),
            }
            &&& 4 * 11 * 11 <= q <= 4 * 14 * 14 ==> r == 255 && g == 255 && b == 255
            &&& 4 * 11 * 11 <= q <= 4 * 13 * 13 ==> a == 255
            &&& 4 * 13 * 13 < q <= 4 * 14 * 14 ==> {
                &&& a > 0 ==> 65025 * q <= 4 * ((3570 - a) * (3570 - a))
                &&& forall|c: int|
                    a < c <= 255 ==> 65025 * q > 4 * (#[trigger] (3570 - c) * (3570 - c))
            }
            &&& q > 4 * 14 * 14 ==> r == 0 && g == 0 && b == 0 && a == 0
        }),
{
    let n = 32 * y + x;
    assert(n % 32 == x && n / 32 == y);
    assert(drawn(rgba@, state, n));
    let q = (2 * x - 31) * (2 * x - 31) + (2 * y - 31) * (2 * y - 31);
    lemma_edge(q, 255);
    let a = rgba@[4 * n + 3];
    if 676 < q <= 784 {
        assert(a == edge_opacity(q, 255));
        assert forall|c: int| a < c <= 255 implies 65025 * q > 4 * (#[trigger] (3570 - c) * (3570
            - c)) by {
            assert(!edge_allows(q, c));
        }
    }
}

/// The click track: a click in every second but the last, in its first three
/// chunks of fifty, numbered from one on; and silence between.
pub proof fn law_click_track(clicks: usize, i: usize, n: usize, r: ClickChunk)
    requires
        (clicks + 1) * 50 <= usize::MAX,
        call_ensures(track_len, (clicks,), n),
        call_ensures(track_chunk, (i, clicks), r),
    ensures
        n == (clicks + 1) * 50,
        i >= clicks * 50 ==> r == ClickChunk::Silence,
        forall|k: int|
            0 <= k < clicks && #[trigger] (k * 50) <= i < k * 50 + 3 ==> r == (ClickChunk::Click {
                phase: (i - k * 50) as usize,
                number: (k + 1) as usize,
            }),
        forall|k: int|
            0 <= k < clicks && #[trigger] (k * 50) + 3 <= i < k * 50 + 50 ==> r
                == ClickChunk::Silence,
        CLICK_PRECHARGE_CHUNKS == 10,
{
}

/// How the command line tells of a status. Only a failure ends the program with a
/// failure, and only a stop ends it well; warnings and failures go to the error
/// output; and a line tells the device's name, the number of the attempt and the
/// reason.
pub proof fn law_command_line_tells(s: EngineStatus, r: CliReport)
    requires
        call_ensures(cli_report, (&s,), r),
    ensures
        r.next == CliNext::Fail <==> s is Failed,
        r.next == CliNext::Done <==> s is Stopped,
        r.is_error <==> s is Warning || s is Failed,
        r.line is None <==> s is Stopped,
        r.line matches Some(line) ==> line@ == match s {
            EngineStatus::Connecting { name } => "connecting to "@ + name@ + "…"@,
            EngineStatus::Streaming { name } => "✓ streaming to "@ + name@ + " — Ctrl-C to stop"@,
            EngineStatus::StreamingSilent { name } => "· connected to "@ + name@
                + " — nothing is playing on this PC"@,
            EngineStatus::Warning { name, message } => "⚠ "@ + name@ + ": "@ + message@,
            EngineStatus::Reconnecting { name, attempt } => "↻ reconnecting to "@ + name@
                + " (attempt "@ + decimal(attempt as nat) + ")…"@,
            EngineStatus::Failed(reason) => "✗ "@ + reason@,
            EngineStatus::Stopped => Seq::empty(),
        },
{
}

} // verus!
