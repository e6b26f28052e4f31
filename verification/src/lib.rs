//! Core logic of the WinIsland desktop widget: lyric parsing and lookup,
//! translation catalogs, media playback bookkeeping, plugin registry and
//! the small decision rules used by the settings window and renderer.

mod text;
pub mod lyrics;
pub mod json;
pub mod i18n;
pub mod media;
pub mod config;
pub mod color;
pub mod render;
pub mod plugin;
pub mod updater;
pub mod tray;
