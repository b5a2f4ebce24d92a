//! What the user can set, and where it is kept.

use crate::devices::{Address, Speaker};
use vstd::prelude::*;

verus! {

/// A volume of one half.
pub const HALF_VOLUME: u32 = 0x3F00_0000;

/// The full volume.
pub const FULL_VOLUME: u32 = 0x3F80_0000;

/// The bits of positive infinity: greater ones, without the sign, are no
/// numbers.
pub const INFINITE_VOLUME: u32 = 0x7F80_0000;

/// The sign bit.
pub const SIGN_BIT: u32 = 0x8000_0000;

/// The bits of negative infinity.
pub const NEGATIVE_INFINITE_VOLUME: u32 = 0xFF80_0000;

/// A volume, carried as the bits of its single-precision number. Those of
/// positive numbers are in the order of the numbers.
#[derive(Debug, Clone, Copy, PartialEq, Eq, Structural)]
pub struct Volume {
    pub bits: u32,
}

/// How much latency the stream has, and how much it can stand.
#[derive(Debug, Clone, Copy, PartialEq, Eq, Structural)]
pub enum LatencyProfile {
    Gaming,
    Video,
    Music,
}

impl Volume {
    /// The bits are those of a number, finite or not.
    pub open spec fn is_number(self) -> bool {
        self.bits <= INFINITE_VOLUME || SIGN_BIT <= self.bits <= NEGATIVE_INFINITE_VOLUME
    }

    /// Between nothing and full (nothing can have a sign).
    pub open spec fn in_range(self) -> bool {
        self.bits <= FULL_VOLUME || self.bits == SIGN_BIT
    }

    /// Whether the bits are those of a number, finite or not.
    pub fn numeric(self) -> (r: bool)
        ensures
            r == self.is_number(),
    {
        self.bits <= INFINITE_VOLUME || (SIGN_BIT <= self.bits && self.bits
            <= NEGATIVE_INFINITE_VOLUME)
    }

    /// A number held to the range from nothing to full.
    pub open spec fn held(self) -> Volume {
        if SIGN_BIT < self.bits <= NEGATIVE_INFINITE_VOLUME {
            Volume { bits: 0 }
        } else if FULL_VOLUME < self.bits <= INFINITE_VOLUME {
            Volume { bits: FULL_VOLUME }
        } else {
            self
        }
    }

    /// The volume held to the range from nothing to full.
    pub fn clamped(self) -> (r: Volume)
        requires
            self.is_number(),
        ensures
            r == self.held(),
    {
        if SIGN_BIT < self.bits && self.bits <= NEGATIVE_INFINITE_VOLUME {
            Volume { bits: 0 }
        } else if FULL_VOLUME < self.bits && self.bits <= INFINITE_VOLUME {
            Volume { bits: FULL_VOLUME }
        } else {
            self
        }
    }
}

/// A number that is held to its range comes out between nothing and full, one
/// in the range stays as it is, and holding it twice is holding it once.
pub proof fn law_held_volume_stays_held(v: Volume)
    requires
        v.is_number(),
    ensures
        v.held().in_range(),
        v.in_range() ==> v.held() == v,
        v.held().held() == v.held(),
{
}

/// What a session streams to, and how.
#[derive(Debug, Clone)]
pub struct EngineConfig {
    pub address: Address,
    pub port: u16,
    pub name: String,
    pub volume: Volume,
    pub latency: LatencyProfile,
    /// Mute the PC's own speakers while audio flows.
    pub mute_local: bool,
}

/// What the tray app remembers between two runs.
#[derive(Debug, Clone)]
pub struct Settings {
    pub volume: Volume,
    pub latency: LatencyProfile,
    /// Mute the PC's own speakers while audio flows.
    pub mute_local: bool,
    pub last_ip: Option<String>,
    pub last_name: Option<String>,
}

impl Settings {
    /// The settings of a first run.
    pub open spec fn initial() -> Settings {
        Settings {
            volume: Volume { bits: HALF_VOLUME },
            latency: LatencyProfile::Video,
            mute_local: true,
            last_ip: None,
            last_name: None,
        }
    }

    /// The session that these settings make with a speaker.
    pub open spec fn session(self, sp: Speaker) -> EngineConfig {
        EngineConfig {
            address: sp.address,
            port: sp.port,
            name: sp.name,
            volume: self.volume,
            latency: self.latency,
            mute_local: self.mute_local,
        }
    }

    /// The session that these settings make with a speaker.
    pub fn session_with(&self, sp: &Speaker) -> (r: EngineConfig)
        ensures
            r == self.session(*sp),
    {
        EngineConfig {
            address: sp.address.copy(),
            port: sp.port,
            name: sp.name.clone(),
            volume: self.volume,
            latency: self.latency,
            mute_local: self.mute_local,
        }
    }
}

impl Default for Settings {
    fn default() -> (r: Self)
        ensures
            r == Settings::initial(),
    {
        Settings {
            volume: Volume { bits: HALF_VOLUME },
            latency: LatencyProfile::Video,
            mute_local: true,
            last_ip: None,
            last_name: None,
        }
    }
}

/// The directory that holds the directory of settings and logs.
#[derive(Debug, Clone, Copy, PartialEq, Eq, Structural)]
pub enum ConfigBase {
    /// What `APPDATA` names.
    AppData,
    /// `.config` in what `HOME` names.
    HomeConfig,
    /// The directory for temporary files.
    Temporary,
}

/// Where settings and logs go: by `APPDATA` where it is set, else by `HOME`
/// where that is, else to a temporary place.
pub fn config_base(has_appdata: bool, has_home: bool) -> (r: ConfigBase)
    ensures
        has_appdata ==> r == ConfigBase::AppData,
        !has_appdata && has_home ==> r == ConfigBase::HomeConfig,
        !has_appdata && !has_home ==> r == ConfigBase::Temporary,
{
    if has_appdata {
        ConfigBase::AppData
    } else if has_home {
        ConfigBase::HomeConfig
    } else {
        ConfigBase::Temporary
    }
}

} // verus!
