//! What a click on the menu does, item by item, and how the tray shows a session.

use crate::devices::{DeviceKind, Ip, Speaker};
use crate::icon::IconState;
use crate::laws::text::{is_number, lemma_index, spelled, unsigned};
use crate::numbers::decimal;
use crate::settings::{LatencyProfile, Settings, Volume};
use crate::status::EngineStatus;
use crate::tray::{
    command, effect_views, id_of_latency, label_of_latency,
    law_presets_stand_for_themselves, menu_command, Checks, Effect,
    EffectView, MenuCommand, MenuEntry, Tray, VolumePreset,
};
use vstd::prelude::*;
use vstd::string::*;

verus! {

/// The id is that of the `i`th device entry: `dev:` and a number.
pub open spec fn names_entry(id: Seq<char>, i: int) -> bool {
    &&& id.len() >= 4
    &&& id[0] == 'd'
    &&& id[1] == 'e'
    &&& id[2] == 'v'
    &&& id[3] == ':'
    &&& is_number(unsigned(id.skip(4)))
    &&& spelled(unsigned(id.skip(4))) == i
}

/// The id is that of an item for the settings.
pub open spec fn is_setting(id: Seq<char>) -> bool {
    ||| id == "mute"@
    ||| id == "lat:gaming"@
    ||| id == "lat:video"@
    ||| id == "lat:music"@
    ||| id == "vol:20"@
    ||| id == "vol:35"@
    ||| id == "vol:50"@
    ||| id == "vol:75"@
    ||| id == "vol:100"@
}

proof fn lemma_device_ids(id: Seq<char>)
    ensures
        forall|i: usize| #[trigger]
            crate::tray::device_index(id) == Some(i) <==> names_entry(id, i as int),
{
    reveal_strlit("dev:");
    if "dev:"@.is_prefix_of(id) {
        assert(id.subrange(0, 4) =~= "dev:"@);
        assert(id[0] == "dev:"@[0] && id[1] == "dev:"@[1] && id[2] == "dev:"@[2] && id[3]
            == "dev:"@[3]);
        lemma_index(id.skip(4));
    } else if id.len() >= 4 && id[0] == 'd' && id[1] == 'e' && id[2] == 'v' && id[3] == ':' {
        assert(id.subrange(0, 4) =~= "dev:"@);
        assert("dev:"@.is_prefix_of(id));
    }
}

proof fn lemma_ids(id: Seq<char>)
    ensures
        command(id) == MenuCommand::Quit <==> id == "quit"@,
        command(id) == MenuCommand::Disconnect <==> id == "disconnect"@,
        command(id) == MenuCommand::Rescan <==> id == "rescan"@,
        command(id) == MenuCommand::ToggleMute <==> id == "mute"@,
        command(id) == MenuCommand::Latency(LatencyProfile::Gaming) <==> id == "lat:gaming"@,
        command(id) == MenuCommand::Latency(LatencyProfile::Video) <==> id == "lat:video"@,
        command(id) == MenuCommand::Latency(LatencyProfile::Music) <==> id == "lat:music"@,
        command(id) == MenuCommand::Volume(VolumePreset::P20) <==> id == "vol:20"@,
        command(id) == MenuCommand::Volume(VolumePreset::P35) <==> id == "vol:35"@,
        command(id) == MenuCommand::Volume(VolumePreset::P50) <==> id == "vol:50"@,
        command(id) == MenuCommand::Volume(VolumePreset::P75) <==> id == "vol:75"@,
        command(id) == MenuCommand::Volume(VolumePreset::P100) <==> id == "vol:100"@,
        forall|i: usize| #[trigger]
            command(id) == MenuCommand::Device(i) <==> names_entry(id, i as int),
{
    lemma_device_ids(id);
    reveal_strlit("quit");
    reveal_strlit("disconnect");
    reveal_strlit("rescan");
    reveal_strlit("mute");
    reveal_strlit("lat:gaming");
    reveal_strlit("lat:video");
    reveal_strlit("lat:music");
    reveal_strlit("vol:20");
    reveal_strlit("vol:35");
    reveal_strlit("vol:50");
    reveal_strlit("vol:75");
    reveal_strlit("vol:100");
    assert("quit"@[0] == 'q');
    assert("disconnect"@[0] == 'd' && "disconnect"@[1] == 'i');
    assert("rescan"@[0] == 'r');
    assert("mute"@[0] == 'm');
    assert("lat:gaming"@[0] == 'l' && "lat:gaming"@[4] == 'g');
    assert("lat:video"@[0] == 'l' && "lat:video"@[4] == 'v');
    assert("lat:music"@[0] == 'l' && "lat:music"@[4] == 'm');
    assert("vol:20"@[0] == 'v' && "vol:20"@[4] == '2');
    assert("vol:35"@[0] == 'v' && "vol:35"@[4] == '3');
    assert("vol:50"@[0] == 'v' && "vol:50"@[4] == '5');
    assert("vol:75"@[0] == 'v' && "vol:75"@[4] == '7');
    assert("vol:100"@[0] == 'v' && "vol:100"@[4] == '1');
    law_presets_stand_for_themselves(LatencyProfile::Gaming, VolumePreset::P20);
    law_presets_stand_for_themselves(LatencyProfile::Video, VolumePreset::P35);
    law_presets_stand_for_themselves(LatencyProfile::Music, VolumePreset::P50);
    law_presets_stand_for_themselves(LatencyProfile::Music, VolumePreset::P75);
    law_presets_stand_for_themselves(LatencyProfile::Music, VolumePreset::P100);
    assert(crate::tray::device_index(id) is Some ==> crate::tray::device_index(id) == Some(
        crate::tray::device_index(id)->0,
    ));
    assert forall|i: usize| #[trigger] command(id) == MenuCommand::Device(i) <==> names_entry(
        id,
        i as int,
    ) by {
        assert(crate::tray::device_index(id) == Some(i) <==> names_entry(id, i as int));
    }
}

proof fn lemma_effects(r: Seq<Effect>)
    ensures
        effect_views(r).len() == r.len(),
        forall|i: int| 0 <= i < r.len() ==> #[trigger] r[i]@ == effect_views(r)[i],
{
}

/// Each item of the menu has the effect of its own id, and no other id has it.
pub proof fn law_each_id_stands_for_its_item(id: &str, r: MenuCommand)
    requires
        call_ensures(menu_command, (id,), r),
    ensures
        r == MenuCommand::Quit <==> id@ == "quit"@,
        r == MenuCommand::Disconnect <==> id@ == "disconnect"@,
        r == MenuCommand::Rescan <==> id@ == "rescan"@,
        r == MenuCommand::ToggleMute <==> id@ == "mute"@,
        r == MenuCommand::Latency(LatencyProfile::Gaming) <==> id@ == "lat:gaming"@,
        r == MenuCommand::Latency(LatencyProfile::Video) <==> id@ == "lat:video"@,
        r == MenuCommand::Latency(LatencyProfile::Music) <==> id@ == "lat:music"@,
        r == MenuCommand::Volume(VolumePreset::P20) <==> id@ == "vol:20"@,
        r == MenuCommand::Volume(VolumePreset::P35) <==> id@ == "vol:35"@,
        r == MenuCommand::Volume(VolumePreset::P50) <==> id@ == "vol:50"@,
        r == MenuCommand::Volume(VolumePreset::P75) <==> id@ == "vol:75"@,
        r == MenuCommand::Volume(VolumePreset::P100) <==> id@ == "vol:100"@,
        forall|i: usize| r == MenuCommand::Device(i) <==> #[trigger] names_entry(id@, i as int),
{
    lemma_ids(id@);
    assert forall|i: usize| r == MenuCommand::Device(i) <==> #[trigger] names_entry(
        id@,
        i as int,
    ) by {
        assert(command(id@) == MenuCommand::Device(i) <==> names_entry(id@, i as int));
    }
}

/// A click changes only the setting that it is for. The latency is another only
/// after one of the three latency items, and is that item's; the volume only
/// after one of the five volume items, and is that item's; the mute only after
/// the mute item, and is the opposite of what it was.
pub proof fn law_click_changes_only_its_own_setting(t: &mut Tray, id: &str, r: Vec<Effect>)
    requires
        old(t).wf(),
        call_ensures(Tray::on_menu, (t, id), r),
    ensures
        final(t).settings.latency == if id@ == "lat:gaming"@ {
            LatencyProfile::Gaming
        } else if id@ == "lat:video"@ {
            LatencyProfile::Video
        } else if id@ == "lat:music"@ {
            LatencyProfile::Music
        } else {
            old(t).settings.latency
        },
        final(t).settings.volume.bits == if id@ == "vol:20"@ {
            0x3E4C_CCCD
        } else if id@ == "vol:35"@ {
            0x3EB3_3333
        } else if id@ == "vol:50"@ {
            0x3F00_0000
        } else if id@ == "vol:75"@ {
            0x3F40_0000
        } else if id@ == "vol:100"@ {
            0x3F80_0000
        } else {
            old(t).settings.volume.bits
        },
        final(t).settings.mute_local == if id@ == "mute"@ {
            !old(t).settings.mute_local
        } else {
            old(t).settings.mute_local
        },
{
    lemma_ids(id@);
}

/// Switching the mute twice is as good as never; and of two clicks for one
/// setting, the second counts.
pub proof fn law_two_clicks(
    t: &mut Tray,
    u: &mut Tray,
    id: &str,
    again: &str,
    r: Vec<Effect>,
    s: Vec<Effect>,
)
    requires
        old(t).wf(),
        call_ensures(Tray::on_menu, (t, id), r),
        *old(u) == *final(t),
        call_ensures(Tray::on_menu, (u, again), s),
        is_setting(id@),
        is_setting(again@),
    ensures
        id@ == "mute"@ && again@ == "mute"@ ==> final(u).settings.mute_local
            == old(t).settings.mute_local && final(u).settings.latency == old(t).settings.latency
            && final(u).settings.volume == old(t).settings.volume,
        id@ == again@ && id@ != "mute"@ ==> final(u).settings.latency == final(t).settings.latency
            && final(u).settings.volume == final(t).settings.volume
            && final(u).settings.mute_local == final(t).settings.mute_local,
        final(u).active == old(t).active,
        final(u).current == old(t).current,
{
    lemma_ids(id@);
    lemma_ids(again@);
}

/// The speaker that is remembered, and what else the tray holds. An item for the
/// settings leaves session, speaker and entries as they are, and what is
/// remembered too, unless a session runs: that one's speaker is remembered then.
/// Other clicks than for a device remember no other speaker either.
pub proof fn law_click_keeps_the_rest(t: &mut Tray, id: &str, r: Vec<Effect>)
    requires
        old(t).wf(),
        call_ensures(Tray::on_menu, (t, id), r),
    ensures
        final(t).entries == old(t).entries,
        is_setting(id@) ==> final(t).active == old(t).active && final(t).current
            == old(t).current,
        is_setting(id@) && old(t).active ==> final(t).settings.last_ip == Some(
            old(t).current->0.address.text,
        ) && final(t).settings.last_name == Some(old(t).current->0.name),
        is_setting(id@) && !old(t).active ==> final(t).settings.last_ip == old(t).settings.last_ip
            && final(t).settings.last_name == old(t).settings.last_name,
        id@ == "disconnect"@ || id@ == "quit"@ ==> !final(t).active,
        !is_setting(id@) && (forall|i: int| !#[trigger] names_entry(id@, i)) ==> {
            &&& final(t).current == old(t).current
            &&& final(t).settings == old(t).settings
            &&& id@ != "disconnect"@ && id@ != "quit"@ ==> final(t).active == old(t).active
        },
{
    lemma_ids(id@);
    if let MenuCommand::Device(i) = command(id@) {
        assert(names_entry(id@, i as int));
    }
}

/// The start of a session with this speaker, under these settings.
pub open spec fn starts(e: Effect, sp: Speaker, s: Settings) -> bool {
    e matches Effect::StartEngine(c) && c.address == sp.address && c.port == sp.port && c.name
        == sp.name && c.volume == s.volume && c.latency == s.latency && c.mute_local
        == s.mute_local
}

/// What an item for the settings has the app do: save, and refresh the check
/// marks; and, where a session runs, end it and start it anew with its speaker,
/// under the new settings.
pub proof fn law_settings_are_saved_and_taken_over(t: &mut Tray, id: &str, r: Vec<Effect>)
    requires
        old(t).wf(),
        call_ensures(Tray::on_menu, (t, id), r),
        is_setting(id@),
    ensures
        r@.len() == if old(t).active {
            6int
        } else {
            2
        },
        r@[0] == Effect::SaveSettings,
        r@[1] == Effect::RefreshChecks,
        old(t).active ==> {
            &&& r@[2] == Effect::StopEngine
            &&& starts(r@[3], old(t).current->0, final(t).settings)
            &&& r@[4] == Effect::SaveSettings
            &&& r@[5] == Effect::RefreshChecks
        },
{
    lemma_ids(id@);
    lemma_effects(r@);
    assert(r@[0]@ == EffectView::SaveSettings);
    assert(r@[1]@ == EffectView::RefreshChecks);
    if old(t).active {
        assert(r@[2]@ == EffectView::StopEngine);
        assert(r@[3]@ is StartEngine);
        assert(r@[4]@ == EffectView::SaveSettings);
        assert(r@[5]@ == EffectView::RefreshChecks);
    }
}

/// A click on a device entry connects to the speaker of that entry, in the place
/// of the one that is connected, and remembers it; an entry that there is not, or
/// that has no name, is no device.
pub proof fn law_click_on_a_device_connects(t: &mut Tray, id: &str, i: usize, r: Vec<Effect>)
    requires
        old(t).wf(),
        call_ensures(Tray::on_menu, (t, id), r),
        names_entry(id@, i as int),
    ensures
        ({
            let there = i < old(t).entries@.len() && old(t).entries@[i as int].name@.len() > 0;
            &&& !there ==> r@.len() == 0 && *final(t) == *old(t)
            &&& there ==> connects(*old(t), *final(t), old(t).entries@[i as int], r@)
        }),
{
    lemma_ids(id@);
    lemma_effects(r@);
    assert(command(id@) == MenuCommand::Device(i));
    if i < old(t).entries@.len() && old(t).entries@[i as int].name@.len() > 0 {
        let k = if old(t).active {
            1int
        } else {
            0
        };
        assert(old(t).active ==> r@[0]@ == EffectView::StopEngine);
        assert(r@[k]@ is StartEngine);
        assert(r@[k + 1]@ == EffectView::SaveSettings);
        assert(r@[k + 2]@ == EffectView::RefreshChecks);
    }
}

/// A connection to a speaker: the session that ran is ended, one with the speaker
/// is started under the settings, the speaker is the current one and is
/// remembered, and the settings are saved.
pub open spec fn connects(before: Tray, after: Tray, sp: Speaker, r: Seq<Effect>) -> bool {
    let k = if before.active {
        1int
    } else {
        0
    };
    &&& after.active
    &&& after.current == Some(sp)
    &&& after.settings.last_ip == Some(sp.address.text)
    &&& after.settings.last_name == Some(sp.name)
    &&& after.settings.volume == before.settings.volume
    &&& after.settings.latency == before.settings.latency
    &&& after.settings.mute_local == before.settings.mute_local
    &&& after.entries == before.entries
    &&& r.len() == k + 3
    &&& before.active ==> r[0] == Effect::StopEngine
    &&& starts(r[k], sp, before.settings)
    &&& r[k + 1] == Effect::SaveSettings
    &&& r[k + 2] == Effect::RefreshChecks
}

/// A call for a speaker connects to it; a restart connects anew to the one that
/// runs, and does nothing where none does.
pub proof fn law_connecting_and_restarting(
    t: &mut Tray,
    sp: Speaker,
    r: Vec<Effect>,
    u: &mut Tray,
    s: Vec<Effect>,
)
    requires
        call_ensures(Tray::connect, (t, sp), r),
        old(u).wf(),
        call_ensures(Tray::restart_if_active, (u,), s),
    ensures
        connects(*old(t), *final(t), sp, r@),
        old(u).active ==> connects(*old(u), *final(u), old(u).current->0, s@),
        !old(u).active ==> s@.len() == 0 && *final(u) == *old(u),
{
    lemma_effects(r@);
    let k = if old(t).active {
        1int
    } else {
        0
    };
    assert(old(t).active ==> r@[0]@ == EffectView::StopEngine);
    assert(r@[k]@ is StartEngine);
    assert(r@[k + 1]@ == EffectView::SaveSettings);
    assert(r@[k + 2]@ == EffectView::RefreshChecks);
    lemma_effects(s@);
    if old(u).active {
        assert(s@[0]@ == EffectView::StopEngine);
        assert(s@[1]@ is StartEngine);
        assert(s@[2]@ == EffectView::SaveSettings);
        assert(s@[3]@ == EffectView::RefreshChecks);
    }
}

/// The effect shows this text, and this icon.
pub open spec fn shows_text(e: Effect, text: Seq<char>, shown: IconState) -> bool {
    e matches Effect::Show { line, icon } && line@ == "Playfruit — "@ + text && icon == shown
}

/// What the other items have the app do: a disconnection ends the session, where
/// there is one, and shows the idle icon; quitting ends it and exits; a rescan
/// only rescans; and an id that is no item's does nothing.
pub proof fn law_other_clicks(t: &mut Tray, id: &str, r: Vec<Effect>)
    requires
        old(t).wf(),
        call_ensures(Tray::on_menu, (t, id), r),
        !is_setting(id@),
        forall|i: int| !#[trigger] names_entry(id@, i),
    ensures
        ({
            let k = if old(t).active {
                1int
            } else {
                0
            };
            if id@ == "disconnect"@ {
                &&& r@.len() == k + 2
                &&& old(t).active ==> r@[0] == Effect::StopEngine
                &&& shows_text(r@[k], "idle"@, IconState::Idle)
                &&& r@[k + 1] == Effect::RefreshChecks
            } else if id@ == "quit"@ {
                &&& r@.len() == k + 1
                &&& old(t).active ==> r@[0] == Effect::StopEngine
                &&& r@[k] == Effect::Exit
            } else if id@ == "rescan"@ {
                r@.len() == 1 && r@[0] == Effect::Rescan
            } else {
                r@.len() == 0
            }
        }),
{
    lemma_ids(id@);
    lemma_effects(r@);
    if let MenuCommand::Device(i) = command(id@) {
        assert(names_entry(id@, i as int));
    }
    assert(!(command(id@) is Device));
    assert(!(command(id@) is Latency));
    assert(!(command(id@) is Volume));
    let k = if old(t).active {
        1int
    } else {
        0
    };
    if id@ == "disconnect"@ {
        assert(old(t).active ==> r@[0]@ == EffectView::StopEngine);
        assert(r@[k]@ is Show);
        assert(r@[k + 1]@ == EffectView::RefreshChecks);
    } else if id@ == "quit"@ {
        assert(old(t).active ==> r@[0]@ == EffectView::StopEngine);
        assert(r@[k]@ == EffectView::Exit);
    } else if id@ == "rescan"@ {
        assert(r@[0]@ == EffectView::Rescan);
    }
}

/// An end of the session by a call is the same as one by the menu.
pub proof fn law_disconnecting(t: &mut Tray, r: Vec<Effect>)
    requires
        call_ensures(Tray::disconnect, (t,), r),
    ensures
        ({
            let k = if old(t).active {
                1int
            } else {
                0
            };
            &&& !final(t).active
            &&& final(t).current == old(t).current
            &&& final(t).settings == old(t).settings
            &&& final(t).entries == old(t).entries
            &&& r@.len() == k + 2
            &&& old(t).active ==> r@[0] == Effect::StopEngine
            &&& shows_text(r@[k], "idle"@, IconState::Idle)
            &&& r@[k + 1] == Effect::RefreshChecks
        }),
{
    lemma_effects(r@);
    let k = if old(t).active {
        1int
    } else {
        0
    };
    assert(old(t).active ==> r@[0]@ == EffectView::StopEngine);
    assert(r@[k]@ is Show);
    assert(r@[k + 1]@ == EffectView::RefreshChecks);
}

/// What the menu shows is what a click takes: after a scan, there is one entry for
/// each speaker, in the same order, with its name and kind, and a click on the id
/// of the `i`th connects to the `i`th speaker. Where none was found there is one
/// dead entry, and a click on its id does nothing.
pub proof fn law_entry_connects_to_its_speaker(
    t: &mut Tray,
    speakers: Vec<Speaker>,
    entries: Vec<MenuEntry>,
    i: int,
    u: &mut Tray,
    id: &str,
    r: Vec<Effect>,
)
    requires
        old(t).wf(),
        speakers@.len() <= usize::MAX,
        call_ensures(Tray::rebuild, (t, speakers), entries),
        0 <= i < entries@.len(),
        *old(u) == *final(t),
        id@ == entries@[i].id@,
        call_ensures(Tray::on_menu, (u, id), r),
    ensures
        final(t).active == old(t).active,
        final(t).current == old(t).current,
        final(t).settings == old(t).settings,
        speakers@.len() > 0 ==> {
            &&& entries@.len() == speakers@.len()
            &&& final(t).entries@ == speakers@
            &&& entries@[i].enabled
            &&& entries@[i].label@ == match speakers@[i].kind {
                DeviceKind::HomePod => speakers@[i].name@ + "  (HomePod)"@,
                DeviceKind::AppleTv => speakers@[i].name@ + "  (Apple TV)"@,
                DeviceKind::OtherAirPlay => speakers@[i].name@,
            }
            &&& speakers@[i].name@.len() > 0 ==> connects(*old(u), *final(u), speakers@[i], r@)
        },
        speakers@.len() == 0 ==> {
            &&& entries@.len() == 1
            &&& !entries@[0].enabled
            &&& entries@[0].label@ == "No AirPlay 2 devices found"@
            &&& r@.len() == 0
            &&& *final(u) == *old(u)
        },
{
    lemma_effects(r@);
    if speakers@.len() > 0 {
        crate::tray::law_entry_stands_for_its_speaker(i as usize);
        assert(command(id@) == MenuCommand::Device(i as usize));
        if speakers@[i].name@.len() > 0 {
            let k = if old(u).active {
                1int
            } else {
                0
            };
            assert(old(u).active ==> r@[0]@ == EffectView::StopEngine);
            assert(r@[k]@ is StartEngine);
            assert(r@[k + 1]@ == EffectView::SaveSettings);
            assert(r@[k + 2]@ == EffectView::RefreshChecks);
        }
    } else {
        crate::tray::law_dead_entry_stands_for_nothing();
    }
}

/// Where no speaker was found, the tray holds one that has no name and stands
/// nowhere, so that no click can connect to it.
pub proof fn law_no_speaker_is_a_nameless_one(t: &mut Tray, speakers: Vec<Speaker>, r: Vec<MenuEntry>)
    requires
        call_ensures(Tray::rebuild, (t, speakers), r),
        speakers@.len() == 0,
    ensures
        final(t).entries@.len() == 1,
        final(t).entries@[0].name@.len() == 0,
        final(t).entries@[0].address.ip == Ip::V4(0),
        final(t).entries@[0].port == 0,
{
}

/// The check marks: a device has one exactly when a session runs and its speaker
/// has the address of that entry; a latency when it is the one that is set; the
/// mute when it is on; and there is something to disconnect exactly while a
/// session runs.
pub proof fn law_check_marks(t: Tray, r: Checks)
    requires
        call_ensures(Tray::checks, (&t,), r),
    ensures
        r.devices@.len() == t.entries@.len(),
        forall|i: int|
            0 <= i < t.entries@.len() ==> (#[trigger] r.devices@[i] <==> t.active && t.current
                is Some && t.current->0.address.ip == t.entries@[i].address.ip),
        r.gaming <==> t.settings.latency == LatencyProfile::Gaming,
        r.video <==> t.settings.latency == LatencyProfile::Video,
        r.music <==> t.settings.latency == LatencyProfile::Music,
        r.mute <==> t.settings.mute_local,
        r.can_disconnect <==> t.active,
{
    assert forall|i: int| 0 <= i < t.entries@.len() implies (#[trigger] r.devices@[i] <==> t.active
        && t.current is Some && t.current->0.address.ip == t.entries@[i].address.ip) by {
        assert(r.devices@[i] == t.is_checked(i));
    }
}

/// How the tray tells of a status: by the icon, and by a text with the device's
/// name, the number of the attempt, and the reason.
pub open spec fn tells(e: Effect, s: EngineStatus) -> bool {
    match s {
        EngineStatus::Connecting { name } => shows_text(
            e,
            "connecting to "@ + name@ + "…"@,
            IconState::Busy,
        ),
        EngineStatus::Streaming { name } => shows_text(
            e,
            "streaming to "@ + name@,
            IconState::Streaming,
        ),
        EngineStatus::StreamingSilent { name } => shows_text(
            e,
            "connected to "@ + name@ + " — nothing is playing on this PC"@,
            IconState::Silent,
        ),
        EngineStatus::Warning { name, message } => shows_text(
            e,
            name@ + ": "@ + message@,
            IconState::Streaming,
        ),
        EngineStatus::Reconnecting { name, attempt } => shows_text(
            e,
            "reconnecting to "@ + name@ + " (attempt "@ + decimal(attempt as nat) + ")…"@,
            IconState::Busy,
        ),
        EngineStatus::Failed(reason) => shows_text(e, "failed: "@ + reason@, IconState::Failed),
        EngineStatus::Stopped => shows_text(e, "idle"@, IconState::Idle),
    }
}

/// Of several statuses that have come in, the last counts, whatever the others
/// were. A session that failed or stopped is over, and its engine is stopped; no
/// other status ends it. Settings, speaker and entries stay as they are.
pub proof fn law_last_status_counts(t: &mut Tray, statuses: Vec<EngineStatus>, r: Vec<Effect>)
    requires
        old(t).wf(),
        call_ensures(Tray::on_statuses, (t, &statuses), r),
    ensures
        final(t).current == old(t).current,
        final(t).settings == old(t).settings,
        final(t).entries == old(t).entries,
        statuses@.len() == 0 ==> r@.len() == 0 && final(t).active == old(t).active,
        statuses@.len() > 0 ==> {
            let last = statuses@[statuses@.len() - 1];
            let over = last is Failed || last is Stopped;
            let k = if over && old(t).active {
                1int
            } else {
                0
            };
            &&& final(t).active <==> old(t).active && !over
            &&& r@.len() == k + 2
            &&& k == 1 ==> r@[0] == Effect::StopEngine
            &&& tells(r@[k], last)
            &&& r@[k + 1] == Effect::RefreshChecks
        },
{
    lemma_effects(r@);
    if statuses@.len() > 0 {
        let last = statuses@[statuses@.len() - 1];
        let over = last is Failed || last is Stopped;
        let k = if over && old(t).active {
            1int
        } else {
            0
        };
        assert(statuses@.last()@.is_terminal() == over);
        assert(k == 1 ==> r@[0]@ == EffectView::StopEngine);
        assert(r@[k]@ is Show);
        assert(r@[k + 1]@ == EffectView::RefreshChecks);
    }
}

/// The percentage of a preset.
pub open spec fn percentage(p: VolumePreset) -> int {
    match p {
        VolumePreset::P20 => 20,
        VolumePreset::P35 => 35,
        VolumePreset::P50 => 50,
        VolumePreset::P75 => 75,
        VolumePreset::P100 => 100,
    }
}

/// The number whose bits these are, times two to the power of 26, for numbers from
/// an eighth up to, but without, two.
pub open spec fn scaled(v: Volume) -> int {
    let mantissa = v.bits as int % 0x80_0000 + 0x80_0000;
    let exponent = v.bits as int / 0x80_0000;
    if exponent == 124 {
        mantissa
    } else if exponent == 125 {
        2 * mantissa
    } else if exponent == 126 {
        4 * mantissa
    } else {
        8 * mantissa
    }
}

/// A preset's volume is its percentage, to the nearest number there is, and its
/// label and its id tell that percentage.
pub proof fn law_preset_is_its_percentage(
    p: VolumePreset,
    v: Volume,
    label: &'static str,
    id: &'static str,
)
    requires
        call_ensures(VolumePreset::volume, (p,), v),
        call_ensures(VolumePreset::to_label, (p,), label),
        call_ensures(VolumePreset::to_id, (p,), id),
    ensures
        124 <= v.bits as int / 0x80_0000 <= 127,
        -100 <= 100 * scaled(v) - percentage(p) * 0x400_0000 <= 100,
        label@ == decimal(percentage(p) as nat) + "%"@,
        id@ == "vol:"@ + decimal(percentage(p) as nat),
{
    reveal_with_fuel(decimal, 4);
    reveal_strlit("%");
    reveal_strlit("vol:");
    reveal_strlit("20%");
    reveal_strlit("35%");
    reveal_strlit("50%");
    reveal_strlit("75%");
    reveal_strlit("100%");
    reveal_strlit("vol:20");
    reveal_strlit("vol:35");
    reveal_strlit("vol:50");
    reveal_strlit("vol:75");
    reveal_strlit("vol:100");
    assert(label@ =~= decimal(percentage(p) as nat) + "%"@);
    assert(id@ =~= "vol:"@ + decimal(percentage(p) as nat));
}

/// The items of the latency profiles.
pub proof fn law_latency_items(p: LatencyProfile, id: &'static str, label: &'static str)
    requires
        call_ensures(id_of_latency, (p,), id),
        call_ensures(label_of_latency, (p,), label),
    ensures
        p == LatencyProfile::Gaming ==> id@ == "lat:gaming"@ && label@
            == "Gaming (~0.5 s, best for sports)"@,
        p == LatencyProfile::Video ==> id@ == "lat:video"@ && label@ == "Video (~0.6 s, steadier)"@,
        p == LatencyProfile::Music ==> id@ == "lat:music"@ && label@
            == "Music (~0.7 s, most robust)"@,
{
}

/// The app starts with no session, no speaker, and no entry, under the settings
/// that it is given.
pub proof fn law_app_starts_idle(settings: Settings, r: Tray)
    requires
        call_ensures(Tray::new, (settings,), r),
    ensures
        !r.active,
        r.current is None,
        r.entries@.len() == 0,
        r.settings == settings,
{
}

} // verus!
