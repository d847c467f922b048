pub mod text;
pub mod controller;
pub mod controller_input;
pub mod controller_setup;
pub mod game_state;
pub mod hotkey;
pub mod input;
pub mod action_router;
pub mod event_order;
pub mod runtime_mapper;
pub mod wifi;
pub mod bluetooth;
pub mod usb_gamepad_recovery;
pub mod keyboard_input;
pub mod wifi_password;
pub mod ui_sections;
pub mod ui_text;
pub mod system_settings;
pub mod manifest;
pub mod catalog;
pub mod audio;
pub mod ipc;
pub mod supervisor;
pub mod ui_nav;
pub mod setup_flow;
