//! The rules of a launcher for screen mirroring over the Android debug
//! bridge, with machine-checked contracts.
//!
//! The library decides and computes; it performs no input or output. Its two
//! main parts are the file push, a protocol session that tells a driver what
//! to send and what to read ([`adb_sync`], [`status`], [`wire`]), and the
//! discovery of devices on the local network, which plans connection probes
//! and gathers their results ([`interfaces`], [`discovery`], [`address`]).
//! The remaining modules build command lines, read the output of commands
//! and keep the launcher's settings.

pub mod adb_sync;
pub mod address;
pub mod apps;
pub mod commands;
pub mod config;
pub mod discovery;
pub mod event;
pub mod interfaces;
pub mod presets;
pub mod push_laws;
pub mod scrcpy;
pub mod status;
pub mod target;
pub mod text;
pub mod tokens;
pub mod tray;
pub mod wire;
