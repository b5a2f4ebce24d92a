//! The tray app: what its menu holds, what a click on it does, and how it shows
//! the state of the session.

use crate::devices::{label, speaker_label, Address, DeviceKind, Ip, Speaker};
use crate::icon::IconState;
use crate::numbers::{decimal, index_of, parse_index, to_decimal};
use crate::settings::{EngineConfig, LatencyProfile, Settings, Volume, FULL_VOLUME, HALF_VOLUME};
use crate::status::{EngineStatus, StatusView};
use crate::text::{chars_of, joined, joined3, same, starts_with};
use vstd::prelude::*;
use vstd::string::*;

verus! {

/// The volumes of the menu.
#[derive(Debug, Clone, Copy, PartialEq, Eq, Structural)]
pub enum VolumePreset {
    P20,
    P35,
    P50,
    P75,
    P100,
}

impl VolumePreset {
    /// The preset's menu id.
    pub open spec fn id(self) -> Seq<char> {
        match self {
            VolumePreset::P20 => "vol:20"@,
            VolumePreset::P35 => "vol:35"@,
            VolumePreset::P50 => "vol:50"@,
            VolumePreset::P75 => "vol:75"@,
            VolumePreset::P100 => "vol:100"@,
        }
    }

    /// The preset's menu id.
    pub fn to_id(self) -> (r: &'static str)
        ensures
            r@ == self.id(),
    {
        match self {
            VolumePreset::P20 => "vol:20",
            VolumePreset::P35 => "vol:35",
            VolumePreset::P50 => "vol:50",
            VolumePreset::P75 => "vol:75",
            VolumePreset::P100 => "vol:100",
        }
    }

    /// The preset's menu label.
    pub open spec fn label(self) -> Seq<char> {
        match self {
            VolumePreset::P20 => "20%"@,
            VolumePreset::P35 => "35%"@,
            VolumePreset::P50 => "50%"@,
            VolumePreset::P75 => "75%"@,
            VolumePreset::P100 => "100%"@,
        }
    }

    /// The preset's menu label.
    pub fn to_label(self) -> (r: &'static str)
        ensures
            r@ == self.label(),
    {
        match self {
            VolumePreset::P20 => "20%",
            VolumePreset::P35 => "35%",
            VolumePreset::P50 => "50%",
            VolumePreset::P75 => "75%",
            VolumePreset::P100 => "100%",
        }
    }

    /// The preset's volume: 0.2, 0.35, 0.5, 0.75 or 1.
    pub open spec fn level(self) -> Volume {
        Volume {
            bits: match self {
                VolumePreset::P20 => 0x3E4C_CCCD,
                VolumePreset::P35 => 0x3EB3_3333,
                VolumePreset::P50 => HALF_VOLUME,
                VolumePreset::P75 => 0x3F40_0000,
                VolumePreset::P100 => FULL_VOLUME,
            },
        }
    }

    /// The preset's volume.
    pub fn volume(self) -> (r: Volume)
        ensures
            r == self.level(),
    {
        Volume {
            bits: match self {
                VolumePreset::P20 => 0x3E4C_CCCD,
                VolumePreset::P35 => 0x3EB3_3333,
                VolumePreset::P50 => HALF_VOLUME,
                VolumePreset::P75 => 0x3F40_0000,
                VolumePreset::P100 => FULL_VOLUME,
            },
        }
    }
}

/// The menu id of a latency profile.
pub open spec fn latency_id(p: LatencyProfile) -> Seq<char> {
    match p {
        LatencyProfile::Gaming => "lat:gaming"@,
        LatencyProfile::Video => "lat:video"@,
        LatencyProfile::Music => "lat:music"@,
    }
}

/// The menu id of a latency profile.
pub fn id_of_latency(p: LatencyProfile) -> (r: &'static str)
    ensures
        r@ == latency_id(p),
{
    match p {
        LatencyProfile::Gaming => "lat:gaming",
        LatencyProfile::Video => "lat:video",
        LatencyProfile::Music => "lat:music",
    }
}

/// The menu label of a latency profile.
pub open spec fn latency_label(p: LatencyProfile) -> Seq<char> {
    match p {
        LatencyProfile::Gaming => "Gaming (~0.5 s, best for sports)"@,
        LatencyProfile::Video => "Video (~0.6 s, steadier)"@,
        LatencyProfile::Music => "Music (~0.7 s, most robust)"@,
    }
}

/// The menu label of a latency profile.
pub fn label_of_latency(p: LatencyProfile) -> (r: &'static str)
    ensures
        r@ == latency_label(p),
{
    match p {
        LatencyProfile::Gaming => "Gaming (~0.5 s, best for sports)",
        LatencyProfile::Video => "Video (~0.6 s, steadier)",
        LatencyProfile::Music => "Music (~0.7 s, most robust)",
    }
}

/// What an item of the menu stands for.
#[derive(Debug, Clone, Copy, PartialEq, Eq, Structural)]
pub enum MenuCommand {
    Quit,
    Disconnect,
    Rescan,
    /// Switch "HomePod only" on or off.
    ToggleMute,
    /// Stream to the device entry with this index.
    Device(usize),
    Latency(LatencyProfile),
    Volume(VolumePreset),
    Nothing,
}

/// The index in the id of a device entry.
pub open spec fn device_index(id: Seq<char>) -> Option<usize> {
    if "dev:"@.is_prefix_of(id) {
        index_of(id.skip("dev:"@.len() as int))
    } else {
        None
    }
}

/// What the item with this id stands for.
pub open spec fn command(id: Seq<char>) -> MenuCommand {
    if id == "quit"@ {
        MenuCommand::Quit
    } else if id == "disconnect"@ {
        MenuCommand::Disconnect
    } else if id == "rescan"@ {
        MenuCommand::Rescan
    } else if id == "mute"@ {
        MenuCommand::ToggleMute
    } else if device_index(id) is Some {
        MenuCommand::Device(device_index(id)->0)
    } else if id == latency_id(LatencyProfile::Gaming) {
        MenuCommand::Latency(LatencyProfile::Gaming)
    } else if id == latency_id(LatencyProfile::Video) {
        MenuCommand::Latency(LatencyProfile::Video)
    } else if id == latency_id(LatencyProfile::Music) {
        MenuCommand::Latency(LatencyProfile::Music)
    } else if id == VolumePreset::P20.id() {
        MenuCommand::Volume(VolumePreset::P20)
    } else if id == VolumePreset::P35.id() {
        MenuCommand::Volume(VolumePreset::P35)
    } else if id == VolumePreset::P50.id() {
        MenuCommand::Volume(VolumePreset::P50)
    } else if id == VolumePreset::P75.id() {
        MenuCommand::Volume(VolumePreset::P75)
    } else if id == VolumePreset::P100.id() {
        MenuCommand::Volume(VolumePreset::P100)
    } else {
        MenuCommand::Nothing
    }
}

fn index_in_id(id: &str) -> (r: Option<usize>)
    ensures
        r == device_index(id@),
{
    let chars: Vec<char> = chars_of(id);
    let prefix: Vec<char> = chars_of("dev:");
    if starts_with(&chars, &prefix) {
        parse_index(&chars, prefix.len())
    } else {
        None
    }
}

/// What the item with this id stands for.
pub fn menu_command(id: &str) -> (r: MenuCommand)
    ensures
        r == command(id@),
{
    if same(id, "quit") {
        return MenuCommand::Quit;
    }
    if same(id, "disconnect") {
        return MenuCommand::Disconnect;
    }
    if same(id, "rescan") {
        return MenuCommand::Rescan;
    }
    if same(id, "mute") {
        return MenuCommand::ToggleMute;
    }
    if let Some(i) = index_in_id(id) {
        return MenuCommand::Device(i);
    }
    if same(id, id_of_latency(LatencyProfile::Gaming)) {
        MenuCommand::Latency(LatencyProfile::Gaming)
    } else if same(id, id_of_latency(LatencyProfile::Video)) {
        MenuCommand::Latency(LatencyProfile::Video)
    } else if same(id, id_of_latency(LatencyProfile::Music)) {
        MenuCommand::Latency(LatencyProfile::Music)
    } else if same(id, VolumePreset::P20.to_id()) {
        MenuCommand::Volume(VolumePreset::P20)
    } else if same(id, VolumePreset::P35.to_id()) {
        MenuCommand::Volume(VolumePreset::P35)
    } else if same(id, VolumePreset::P50.to_id()) {
        MenuCommand::Volume(VolumePreset::P50)
    } else if same(id, VolumePreset::P75.to_id()) {
        MenuCommand::Volume(VolumePreset::P75)
    } else if same(id, VolumePreset::P100.to_id()) {
        MenuCommand::Volume(VolumePreset::P100)
    } else {
        MenuCommand::Nothing
    }
}

/// An entry of the device menu.
#[derive(Debug)]
pub struct MenuEntry {
    pub id: String,
    pub label: String,
    pub enabled: bool,
}

/// The entries of the device menu, as they are shown: one for each speaker, or
/// a dead one that says that there is none.
pub open spec fn shows(entries: Seq<MenuEntry>, speakers: Seq<Speaker>) -> bool {
    if speakers.len() == 0 {
        &&& entries.len() == 1
        &&& entries[0].id@ == "dev:none"@
        &&& entries[0].label@ == "No AirPlay 2 devices found"@
        &&& !entries[0].enabled
    } else {
        &&& entries.len() == speakers.len()
        &&& forall|i: int|
            0 <= i < entries.len() ==> {
                &&& (#[trigger] entries[i]).id@ == "dev:"@ + decimal(i as nat)
                &&& entries[i].label@ == label(speakers[i])
                &&& entries[i].enabled
            }
    }
}

/// What the app has to do.
#[derive(Debug)]
pub enum Effect {
    StopEngine,
    StartEngine(EngineConfig),
    SaveSettings,
    /// Show the line in the menu and the tooltip, and this icon.
    Show { line: String, icon: IconState },
    RefreshChecks,
    /// Look for devices, and hand them to [`Tray::rebuild`].
    Rescan,
    Exit,
}

/// An effect, with its text as characters.
pub enum EffectView {
    StopEngine,
    StartEngine(EngineConfig),
    SaveSettings,
    Show(Seq<char>, IconState),
    RefreshChecks,
    Rescan,
    Exit,
}

impl View for Effect {
    type V = EffectView;

    open spec fn view(&self) -> EffectView {
        match self {
            Effect::StopEngine => EffectView::StopEngine,
            Effect::StartEngine(c) => EffectView::StartEngine(*c),
            Effect::SaveSettings => EffectView::SaveSettings,
            Effect::Show { line, icon } => EffectView::Show(line@, *icon),
            Effect::RefreshChecks => EffectView::RefreshChecks,
            Effect::Rescan => EffectView::Rescan,
            Effect::Exit => EffectView::Exit,
        }
    }
}

/// Some effects, with their texts as characters.
pub open spec fn effect_views(effects: Seq<Effect>) -> Seq<EffectView> {
    effects.map_values(|e: Effect| e@)
}

/// The line that the menu and the tooltip show.
pub open spec fn shown_line(text: Seq<char>) -> Seq<char> {
    "Playfruit — "@ + text
}

/// How a status is shown.
pub open spec fn status_text(s: StatusView) -> Seq<char> {
    match s {
        StatusView::Connecting(name) => "connecting to "@ + name + "…"@,
        StatusView::Streaming(name) => "streaming to "@ + name,
        StatusView::StreamingSilent(name) => "connected to "@ + name
            + " — nothing is playing on this PC"@,
        StatusView::Warning(name, message) => name + ": "@ + message,
        StatusView::Reconnecting(name, attempt) => "reconnecting to "@ + name + " (attempt "@
            + decimal(attempt as nat) + ")…"@,
        StatusView::Failed(e) => "failed: "@ + e,
        StatusView::Stopped => "idle"@,
    }
}

/// The icon of a status: yellow while there is no session yet, green while there
/// is one, pale green while it has nothing to play, red after a failure.
pub open spec fn status_icon(s: StatusView) -> IconState {
    match s {
        StatusView::Connecting(_) => IconState::Busy,
        StatusView::Streaming(_) => IconState::Streaming,
        StatusView::StreamingSilent(_) => IconState::Silent,
        StatusView::Warning(_, _) => IconState::Streaming,
        StatusView::Reconnecting(_, _) => IconState::Busy,
        StatusView::Failed(_) => IconState::Failed,
        StatusView::Stopped => IconState::Idle,
    }
}

fn text_of_status(s: &EngineStatus) -> (r: String)
    ensures
        r@ == status_text(s@),
{
    match s {
        EngineStatus::Connecting { name } => joined3("connecting to ", name.as_str(), "…"),
        EngineStatus::Streaming { name } => joined("streaming to ", name.as_str()),
        EngineStatus::StreamingSilent { name } => joined3(
            "connected to ",
            name.as_str(),
            " — nothing is playing on this PC",
        ),
        EngineStatus::Warning { name, message } => joined3(name.as_str(), ": ", message.as_str()),
        EngineStatus::Reconnecting { name, attempt } => {
            let mut out: String = joined3("reconnecting to ", name.as_str(), " (attempt ");
            out.append(to_decimal(*attempt as u64).as_str());
            out.append(")…");
            out
        },
        EngineStatus::Failed(e) => joined("failed: ", e.as_str()),
        EngineStatus::Stopped => "idle".to_owned(),
    }
}

fn icon_of_status(s: &EngineStatus) -> (r: IconState)
    ensures
        r == status_icon(s@),
{
    match s {
        EngineStatus::Connecting { .. } => IconState::Busy,
        EngineStatus::Streaming { .. } => IconState::Streaming,
        EngineStatus::StreamingSilent { .. } => IconState::Silent,
        EngineStatus::Warning { .. } => IconState::Streaming,
        EngineStatus::Reconnecting { .. } => IconState::Busy,
        EngineStatus::Failed(_) => IconState::Failed,
        EngineStatus::Stopped => IconState::Idle,
    }
}

fn show(text: &str, icon: IconState) -> (r: Effect)
    ensures
        r@ == EffectView::Show(shown_line(text@), icon),
{
    Effect::Show { line: joined("Playfruit — ", text), icon }
}

/// The state of the tray app.
#[derive(Debug)]
pub struct Tray {
    /// An engine is running.
    pub active: bool,
    /// The speaker of the last session.
    pub current: Option<Speaker>,
    pub settings: Settings,
    /// The speakers of the device menu, by the index of their entry.
    pub entries: Vec<Speaker>,
}

/// Which items of the menu have a check mark, and whether there is something to
/// disconnect.
#[derive(Debug)]
pub struct Checks {
    pub devices: Vec<bool>,
    pub gaming: bool,
    pub video: bool,
    pub music: bool,
    pub mute: bool,
    pub can_disconnect: bool,
}

/// A stop of the engine, where one is running.
pub open spec fn stop_if(active: bool) -> Seq<EffectView> {
    if active {
        seq![EffectView::StopEngine]
    } else {
        Seq::empty()
    }
}

/// What the tray holds where no speaker was found: one that has no name and
/// stands nowhere.
pub open spec fn is_placeholder(entries: Seq<Speaker>) -> bool {
    &&& entries.len() == 1
    &&& entries[0].name@.len() == 0
    &&& entries[0].address.ip == Ip::V4(0)
    &&& entries[0].address.text@ == "0.0.0.0"@
    &&& entries[0].port == 0
    &&& entries[0].kind == DeviceKind::OtherAirPlay
}

impl Tray {
    /// An engine that is running has a speaker.
    pub open spec fn wf(self) -> bool {
        self.active ==> self.current is Some
    }

    /// The state after a connection to a speaker.
    pub open spec fn connected(self, sp: Speaker) -> Tray {
        Tray {
            active: true,
            current: Some(sp),
            settings: Settings {
                last_ip: Some(sp.address.text),
                last_name: Some(sp.name),
                ..self.settings
            },
            ..self
        }
    }

    /// What a connection to a speaker takes.
    pub open spec fn connect_effects(self, sp: Speaker) -> Seq<EffectView> {
        stop_if(self.active) + seq![
            EffectView::StartEngine(self.settings.session(sp)),
            EffectView::SaveSettings,
            EffectView::RefreshChecks,
        ]
    }

    /// The state after a restart of the session, where there is one.
    pub open spec fn restarted(self) -> Tray {
        match self.current {
            Some(sp) if self.active => self.connected(sp),
            _ => self,
        }
    }

    /// What a restart of the session takes, where there is one.
    pub open spec fn restart_effects(self) -> Seq<EffectView> {
        match self.current {
            Some(sp) if self.active => self.connect_effects(sp),
            _ => Seq::empty(),
        }
    }

    /// The state with other settings.
    pub open spec fn with(self, settings: Settings) -> Tray {
        Tray { settings, ..self }
    }

    /// The settings after a command.
    pub open spec fn set(self, c: MenuCommand) -> Settings {
        match c {
            MenuCommand::Latency(latency) => Settings { latency, ..self.settings },
            MenuCommand::Volume(p) => Settings { volume: p.level(), ..self.settings },
            MenuCommand::ToggleMute => Settings {
                mute_local: !self.settings.mute_local,
                ..self.settings
            },
            _ => self.settings,
        }
    }

    /// The command is one for the settings.
    pub open spec fn sets(c: MenuCommand) -> bool {
        c is Latency || c is Volume || c == MenuCommand::ToggleMute
    }

    /// The state after a command. New settings are taken over by the running
    /// session at once.
    pub open spec fn moved(self, c: MenuCommand) -> Tray {
        if Self::sets(c) {
            self.with(self.set(c)).restarted()
        } else {
            match c {
                MenuCommand::Device(i) if i < self.entries.len() && self.entries@[i as int].name@.len()
                    > 0 => self.connected(self.entries@[i as int]),
                MenuCommand::Disconnect => Tray { active: false, ..self },
                MenuCommand::Quit => Tray { active: false, ..self },
                _ => self,
            }
        }
    }

    /// What a command takes.
    pub open spec fn effects(self, c: MenuCommand) -> Seq<EffectView> {
        if Self::sets(c) {
            seq![EffectView::SaveSettings, EffectView::RefreshChecks] + self.with(
                self.set(c),
            ).restart_effects()
        } else {
            match c {
                MenuCommand::Device(i) if i < self.entries.len() && self.entries@[i as int].name@.len()
                    > 0 => self.connect_effects(self.entries@[i as int]),
                MenuCommand::Disconnect => stop_if(self.active) + seq![
                    EffectView::Show(shown_line("idle"@), IconState::Idle),
                    EffectView::RefreshChecks,
                ],
                MenuCommand::Quit => stop_if(self.active) + seq![EffectView::Exit],
                MenuCommand::Rescan => seq![EffectView::Rescan],
                _ => Seq::empty(),
            }
        }
    }

    /// The app at its start.
    pub fn new(settings: Settings) -> (r: Tray)
        ensures
            r.wf(),
            !r.active,
            r.current is None,
            r.settings == settings,
            r.entries@ == Seq::<Speaker>::empty(),
    {
        Tray { active: false, current: None, settings, entries: Vec::new() }
    }

    fn stop_running(&mut self, out: &mut Vec<Effect>)
        ensures
            *final(self) == (Tray { active: false, ..*old(self) }),
            effect_views(final(out)@) == effect_views(old(out)@) + stop_if(old(self).active),
    {
        if self.active {
            out.push(Effect::StopEngine);
        }
        self.active = false;
        assert(effect_views(out@) =~= effect_views(old(out)@) + stop_if(old(self).active));
    }

    /// Connects to a speaker, in the place of the one that is connected.
    pub fn connect(&mut self, sp: Speaker) -> (r: Vec<Effect>)
        ensures
            *final(self) == old(self).connected(sp),
            final(self).wf(),
            effect_views(r@) == old(self).connect_effects(sp),
    {
        let mut out: Vec<Effect> = Vec::new();
        self.stop_running(&mut out);
        let config: EngineConfig = self.settings.session_with(&sp);
        self.active = true;
        self.settings.last_ip = Some(sp.address.text.clone());
        self.settings.last_name = Some(sp.name.clone());
        self.current = Some(sp);
        out.push(Effect::StartEngine(config));
        out.push(Effect::SaveSettings);
        out.push(Effect::RefreshChecks);
        assert(effect_views(out@) =~= old(self).connect_effects(sp));
        out
    }

    /// Ends the session.
    pub fn disconnect(&mut self) -> (r: Vec<Effect>)
        ensures
            *final(self) == old(self).moved(MenuCommand::Disconnect),
            final(self).wf(),
            effect_views(r@) == old(self).effects(MenuCommand::Disconnect),
    {
        let mut out: Vec<Effect> = Vec::new();
        self.stop_running(&mut out);
        out.push(show("idle", IconState::Idle));
        out.push(Effect::RefreshChecks);
        assert(effect_views(out@) =~= old(self).effects(MenuCommand::Disconnect));
        out
    }

    /// Restarts the session, where there is one, so that it takes over the
    /// settings.
    pub fn restart_if_active(&mut self) -> (r: Vec<Effect>)
        requires
            old(self).wf(),
        ensures
            *final(self) == old(self).restarted(),
            final(self).wf(),
            effect_views(r@) == old(self).restart_effects(),
    {
        if self.active {
            let current: Option<Speaker> = match &self.current {
                Some(sp) => Some(sp.copy()),
                None => None,
            };
            if let Some(sp) = current {
                return self.connect(sp);
            }
        }
        let out: Vec<Effect> = Vec::new();
        assert(effect_views(out@) =~= Seq::empty());
        out
    }

    /// Saves the settings, and has the running session take them over.
    fn apply_settings(&mut self) -> (r: Vec<Effect>)
        requires
            old(self).wf(),
        ensures
            *final(self) == old(self).restarted(),
            final(self).wf(),
            effect_views(r@) == seq![EffectView::SaveSettings, EffectView::RefreshChecks]
                + old(self).restart_effects(),
    {
        let mut out: Vec<Effect> = Vec::new();
        out.push(Effect::SaveSettings);
        out.push(Effect::RefreshChecks);
        let ghost first = out@;
        let mut rest: Vec<Effect> = self.restart_if_active();
        let ghost then_these = rest@;
        out.append(&mut rest);
        assert(effect_views(out@) =~= effect_views(first) + effect_views(then_these));
        assert(effect_views(first) =~= seq![EffectView::SaveSettings, EffectView::RefreshChecks]);
        out
    }

    /// Does what an item of the menu stands for.
    pub fn on_menu(&mut self, id: &str) -> (r: Vec<Effect>)
        requires
            old(self).wf(),
        ensures
            *final(self) == old(self).moved(command(id@)),
            final(self).wf(),
            effect_views(r@) == old(self).effects(command(id@)),
    {
        let ghost c = command(id@);
        let mut out: Vec<Effect> = Vec::new();
        match menu_command(id) {
            MenuCommand::Quit => {
                self.stop_running(&mut out);
                out.push(Effect::Exit);
            },
            MenuCommand::Disconnect => {
                return self.disconnect();
            },
            MenuCommand::Rescan => {
                out.push(Effect::Rescan);
            },
            MenuCommand::ToggleMute => {
                self.settings.mute_local = !self.settings.mute_local;
                return self.apply_settings();
            },
            MenuCommand::Device(i) => {
                if i < self.entries.len() && !self.entries[i].name.as_str().is_empty() {
                    let sp: Speaker = self.entries[i].copy();
                    return self.connect(sp);
                }
            },
            MenuCommand::Latency(p) => {
                self.settings.latency = p;
                return self.apply_settings();
            },
            MenuCommand::Volume(p) => {
                self.settings.volume = p.volume();
                return self.apply_settings();
            },
            MenuCommand::Nothing => {},
        }
        assert(effect_views(out@) =~= old(self).effects(c));
        out
    }

    /// Takes over what the last scan found, and returns the entries to show.
    pub fn rebuild(&mut self, speakers: Vec<Speaker>) -> (r: Vec<MenuEntry>)
        ensures
            shows(r@, speakers@),
            final(self).active == old(self).active,
            final(self).current == old(self).current,
            final(self).settings == old(self).settings,
            speakers.len() > 0 ==> final(self).entries == speakers,
            speakers.len() == 0 ==> is_placeholder(final(self).entries@),
    {
        let mut out: Vec<MenuEntry> = Vec::new();
        if speakers.len() == 0 {
            out.push(
                MenuEntry {
                    id: "dev:none".to_owned(),
                    label: "No AirPlay 2 devices found".to_owned(),
                    enabled: false,
                },
            );
            let mut entries: Vec<Speaker> = Vec::new();
            entries.push(
                Speaker {
                    name: String::new(),
                    address: Address { ip: Ip::V4(0), text: "0.0.0.0".to_owned() },
                    port: 0,
                    kind: DeviceKind::OtherAirPlay,
                },
            );
            self.entries = entries;
            return out;
        }
        let mut i: usize = 0;
        while i < speakers.len()
            invariant
                i <= speakers.len(),
                out.len() == i,
                forall|k: int|
                    0 <= k < i ==> {
                        &&& (#[trigger] out@[k]).id@ == "dev:"@ + decimal(k as nat)
                        &&& out@[k].label@ == label(speakers@[k])
                        &&& out@[k].enabled
                    },
            decreases speakers.len() - i,
        {
            out.push(
                MenuEntry {
                    id: joined("dev:", to_decimal(i as u64).as_str()),
                    label: speaker_label(&speakers[i]),
                    enabled: true,
                },
            );
            i = i + 1;
        }
        self.entries = speakers;
        out
    }

    /// The device entry has a check mark: its speaker is the one that the
    /// running engine streams to.
    pub open spec fn is_checked(self, i: int) -> bool {
        &&& self.active
        &&& self.current matches Some(sp)
        &&& sp.address.ip == self.entries@[i].address.ip
    }

    /// Which items of the menu have a check mark.
    pub fn checks(&self) -> (r: Checks)
        ensures
            r.devices.len() == self.entries.len(),
            forall|i: int| 0 <= i < r.devices.len() ==> r.devices@[i] == self.is_checked(i),
            r.gaming == (self.settings.latency == LatencyProfile::Gaming),
            r.video == (self.settings.latency == LatencyProfile::Video),
            r.music == (self.settings.latency == LatencyProfile::Music),
            r.mute == self.settings.mute_local,
            r.can_disconnect == self.active,
    {
        let mut devices: Vec<bool> = Vec::new();
        let mut i: usize = 0;
        while i < self.entries.len()
            invariant
                i <= self.entries.len(),
                devices.len() == i,
                forall|k: int| 0 <= k < i ==> devices@[k] == self.is_checked(k),
            decreases self.entries.len() - i,
        {
            let here: bool = match &self.current {
                Some(sp) => self.active && sp.address.ip == self.entries[i].address.ip,
                None => false,
            };
            devices.push(here);
            i = i + 1;
        }
        Checks {
            devices,
            gaming: self.settings.latency == LatencyProfile::Gaming,
            video: self.settings.latency == LatencyProfile::Video,
            music: self.settings.latency == LatencyProfile::Music,
            mute: self.settings.mute_local,
            can_disconnect: self.active,
        }
    }

    /// Shows the last of the statuses that have come in. After a terminal one,
    /// the engine is stopped.
    pub fn on_statuses(&mut self, statuses: &Vec<EngineStatus>) -> (r: Vec<Effect>)
        requires
            old(self).wf(),
        ensures
            final(self).wf(),
            statuses.len() == 0 ==> r.len() == 0 && *final(self) == *old(self),
            statuses.len() > 0 ==> {
                let s = statuses@.last()@;
                let over = s.is_terminal();
                &&& *final(self) == (Tray { active: old(self).active && !over, ..*old(self) })
                &&& effect_views(r@) == stop_if(over && old(self).active) + seq![
                    EffectView::Show(shown_line(status_text(s)), status_icon(s)),
                    EffectView::RefreshChecks,
                ]
            },
    {
        let mut out: Vec<Effect> = Vec::new();
        if statuses.len() == 0 {
            return out;
        }
        let s: &EngineStatus = &statuses[statuses.len() - 1];
        let over: bool = match s {
            EngineStatus::Failed(_) => true,
            EngineStatus::Stopped => true,
            _ => false,
        };
        if over {
            self.stop_running(&mut out);
        }
        out.push(show(text_of_status(s).as_str(), icon_of_status(s)));
        out.push(Effect::RefreshChecks);
        assert(effect_views(out@) =~= stop_if(over && old(self).active) + seq![
            EffectView::Show(shown_line(status_text(s@)), status_icon(s@)),
            EffectView::RefreshChecks,
        ]);
        out
    }
}

/// A click on an entry of the device menu is a call for that entry's speaker:
/// the id that the entry was shown with stands for its index.
pub proof fn law_entry_stands_for_its_speaker(i: usize)
    ensures
        command("dev:"@ + decimal(i as nat)) == MenuCommand::Device(i),
{
    let id = "dev:"@ + decimal(i as nat);
    reveal_strlit("dev:");
    reveal_strlit("quit");
    reveal_strlit("disconnect");
    reveal_strlit("rescan");
    reveal_strlit("mute");
    crate::numbers::law_decimal_reads_back(i);
    assert(id.skip("dev:"@.len() as int) =~= decimal(i as nat));
    assert("dev:"@ =~= id.take("dev:"@.len() as int));
    assert(id[0] == 'd' && id[1] == 'e');
    assert("quit"@[0] == 'q');
    assert("disconnect"@[1] == 'i');
    assert("rescan"@[0] == 'r');
    assert("mute"@[0] == 'm');
}

proof fn lemma_not_a_device(id: Seq<char>)
    requires
        id.len() == 0 || id[0] != 'd',
    ensures
        device_index(id) is None,
{
    reveal_strlit("dev:");
    if "dev:"@.is_prefix_of(id) {
        assert("dev:"@[0] == id[0]);
    }
}

/// A click on a latency profile or on a volume stands for that one.
pub proof fn law_presets_stand_for_themselves(p: LatencyProfile, v: VolumePreset)
    ensures
        command(latency_id(p)) == MenuCommand::Latency(p),
        command(v.id()) == MenuCommand::Volume(v),
{
    reveal_strlit("quit");
    reveal_strlit("disconnect");
    reveal_strlit("rescan");
    reveal_strlit("mute");
    reveal_strlit("lat:gaming");
    reveal_strlit("lat:video");
    reveal_strlit("lat:music");
    reveal_strlit("vol:20");
    reveal_strlit("vol:35");
    reveal_strlit("vol:50");
    reveal_strlit("vol:75");
    reveal_strlit("vol:100");
    lemma_not_a_device(latency_id(p));
    lemma_not_a_device(v.id());
    assert("quit"@[0] == 'q');
    assert("disconnect"@[0] == 'd');
    assert("rescan"@[0] == 'r');
    assert("mute"@[0] == 'm');
    assert("lat:gaming"@[0] == 'l' && "lat:gaming"@[4] == 'g');
    assert("lat:video"@[0] == 'l' && "lat:video"@[4] == 'v');
    assert("lat:music"@[0] == 'l' && "lat:music"@[4] == 'm');
    assert("vol:20"@[0] == 'v' && "vol:20"@[4] == '2');
    assert("vol:35"@[0] == 'v' && "vol:35"@[4] == '3');
    assert("vol:50"@[0] == 'v' && "vol:50"@[4] == '5');
    assert("vol:75"@[0] == 'v' && "vol:75"@[4] == '7');
    assert("vol:100"@[0] == 'v' && "vol:100"@[4] == '1');
}

/// The entry that says that there is no device stands for nothing.
pub proof fn law_dead_entry_stands_for_nothing()
    ensures
        command("dev:none"@) == MenuCommand::Nothing,
{
    reveal_strlit("dev:none");
    reveal_strlit("dev:");
    reveal_strlit("quit");
    reveal_strlit("disconnect");
    reveal_strlit("rescan");
    reveal_strlit("mute");
    reveal_strlit("lat:gaming");
    reveal_strlit("lat:video");
    reveal_strlit("lat:music");
    reveal_strlit("vol:20");
    reveal_strlit("vol:35");
    reveal_strlit("vol:50");
    reveal_strlit("vol:75");
    reveal_strlit("vol:100");
    let id = "dev:none"@;
    let rest = id.skip("dev:"@.len() as int);
    assert(rest =~= seq!['n', 'o', 'n', 'e']);
    reveal_with_fuel(crate::numbers::digits_value, 2);
    assert(crate::numbers::digit_value(rest.last()) is None);
    assert(id[0] == 'd' && id[1] == 'e');
    assert("quit"@[0] == 'q');
    assert("disconnect"@[1] == 'i');
    assert("rescan"@[0] == 'r');
    assert("mute"@[0] == 'm');
    assert("lat:gaming"@[0] == 'l');
    assert("lat:video"@[0] == 'l');
    assert("lat:music"@[0] == 'l');
    assert("vol:20"@[0] == 'v');
    assert("vol:35"@[0] == 'v');
    assert("vol:50"@[0] == 'v');
    assert("vol:75"@[0] == 'v');
    assert("vol:100"@[0] == 'v');
}

/// At most one device has a check mark, where no two entries share an address,
/// as they do not in what a scan lists.
pub proof fn law_one_check_mark(t: Tray, i: int, j: int)
    requires
        forall|a: int, b: int|
            0 <= a < t.entries@.len() && 0 <= b < t.entries@.len() && a != b ==> (
            #[trigger] t.entries@[a]).address.ip != (#[trigger] t.entries@[b]).address.ip,
        0 <= i < t.entries@.len(),
        0 <= j < t.entries@.len(),
        t.is_checked(i),
        t.is_checked(j),
    ensures
        i == j,
{
}

/// Only one engine runs at a time: whatever the command, an engine is started
/// only after the one that runs has been stopped.
pub proof fn law_one_engine_at_a_time(t: Tray, c: MenuCommand, k: int)
    requires
        t.active,
        0 <= k < t.effects(c).len(),
        t.effects(c)[k] is StartEngine,
    ensures
        exists|j: int| 0 <= j < k && #[trigger] t.effects(c)[j] == EffectView::StopEngine,
{
    let all = t.effects(c);
    if Tray::sets(c) {
        assert(all[2] == EffectView::StopEngine);
    } else {
        assert(all[0] == EffectView::StopEngine);
    }
}

/// New settings are saved, and a running session is started anew with them, to
/// the speaker that it had.
pub proof fn law_settings_reach_the_session(t: Tray, c: MenuCommand)
    requires
        t.wf(),
        Tray::sets(c),
    ensures
        t.effects(c)[0] == EffectView::SaveSettings,
        t.active ==> t.effects(c).contains(
            EffectView::StartEngine(t.set(c).session(t.current->0)),
        ) && t.moved(c).active && t.moved(c).current == t.current,
        !t.active ==> !t.moved(c).active,
        t.moved(c).settings.latency == t.set(c).latency,
        t.moved(c).settings.volume == t.set(c).volume,
        t.moved(c).settings.mute_local == t.set(c).mute_local,
{
    if t.active {
        let all = t.effects(c);
        assert(all[3] == EffectView::StartEngine(t.set(c).session(t.current->0)));
    }
}

} // verus!
