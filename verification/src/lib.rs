//! Verified logic of a Wayland status bar: parsers for the procfs/sysfs
//! and command outputs the widgets read, the decisions that map readings to
//! icons, colour bands and labels, and the small state machines that track
//! devices, windows and workspaces.

pub mod text;
pub mod bytes;
pub mod bluetooth;
pub mod workspaces;
pub mod windows;
pub mod util;
pub mod cpu;
pub mod freq;
pub mod power;
pub mod battery;
pub mod wifi;
pub mod json;
pub mod audio;
pub mod hover;
pub mod section;
pub mod pkg;
pub mod tray;
pub mod input;
pub mod clock;
pub mod indicators;
pub mod minimap;
pub mod appicon;
