//! What the library promises, in plain numbers and on the calls themselves: each
//! law holds of every call of the function that it names.

pub mod audio;
pub mod command_line;
pub mod devices;
pub mod doctor;
pub mod picture;
pub mod session;
pub mod steps;
pub mod text;
pub mod tray;
