//! Verified core of the Vesper tools: the local gateway's configuration,
//! routing and security rules, the LAN file-transfer naming and framing
//! rules, and the audio device bookkeeping.
pub mod text;
pub mod file_names;
pub mod transfer;
pub mod route_table;
pub mod gateway_config;
pub mod hosts;
pub mod security;
pub mod stats;
pub mod dns;
pub mod proxy;
pub mod system_tuning;
pub mod control;
pub mod audio_devices;
pub mod dsp_engine;
pub mod dsp_session;
pub mod dsp_windows;
pub mod apo_link;
pub mod woofer_router;
pub mod acme;
pub mod tray_menus;
pub mod stream_cache;
pub mod response_cache;
pub mod pages;
