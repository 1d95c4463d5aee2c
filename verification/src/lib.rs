//! RedLight: the verified core of a tray utility that applies a full-screen
//! red-only colour filter on Windows.
//!
//! The library holds the decisions and the byte formats; the program around it
//! performs the Windows calls and hands the library plain values.

pub mod icon;
pub mod hotkey;
pub mod cursor;
pub mod filter;
pub mod config;
pub mod autostart;
pub mod tray;
