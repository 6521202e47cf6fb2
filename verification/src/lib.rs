//! Caching, load-strategy and configuration logic of an MQTT/HTTP-driven
//! multichannel audio player, each function stated in a contract and proved.

pub mod audio;
pub mod cache;
pub mod clock;
pub mod config;
pub mod dialog;
pub mod display;
pub mod document;
pub mod editor;
pub mod editor_keys;
pub mod editor_state;
pub mod fields;
pub mod http;
pub mod keyed;
pub mod loading;
pub mod registry;
pub mod text;
pub mod validation;
