//! Playfruit: stream a PC's system audio to a HomePod.
//!
//! The crate holds the decisions of the project: the pump that keeps the
//! stream in step with the wall clock, the supervision of a session, the
//! checks of `playfruit doctor`, the command line, and the tray menu.

pub mod args;
pub mod capture;
pub mod click;
pub mod clock;
pub mod devices;
pub mod doctor;
pub mod health;
pub mod icon;
pub mod laws;
pub mod mute;
pub mod numbers;
pub mod pcm;
pub mod pump;
pub mod pump_laws;
pub mod rig;
pub mod session;
pub mod settings;
pub mod status;
pub mod streak;
pub mod supervisor;
pub mod text;
pub mod tray;

pub use settings::EngineConfig;
pub use status::EngineStatus;
