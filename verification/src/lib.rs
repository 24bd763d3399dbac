//! Removable-storage model and presentation logic for a Waybar module that
//! talks to UDisks2.
pub mod text;
pub mod string_map;
pub mod config;
pub mod udisks;
pub mod device;
pub mod i18n;
pub mod renderer;
pub mod actions;
pub mod gui;
pub mod menu;
pub mod cli;
pub mod util;
pub mod monitor;
pub mod laws;
pub mod list_laws;
pub mod behaviour_laws;
