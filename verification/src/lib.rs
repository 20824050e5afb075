//! Core logic of the Pot translation desktop tool: configuration, service
//! lists, shortcut handling, request routing and the translation backends'
//! request and response handling.

pub mod text;
pub mod json;
pub mod error;
pub mod util;
pub mod config;
pub mod http_server;
pub mod shortcut;
pub mod hotkey;
pub mod updater;
pub mod services;
pub mod translators;
pub mod registry;
pub mod plugin;
pub mod tts;
pub mod recognize;
pub mod collection;
pub mod translate;
pub mod translate_window;
pub mod desktop;
pub mod history;
pub mod screenshot;
pub mod service_config;
pub mod app_control;
pub mod recognize_window;
pub mod config_window;
