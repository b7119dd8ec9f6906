[package]
name = "eqvis"
version = "0.1.0"
edition = "2021"
publish = false

[dependencies]
cpal = "=0.17.3"
egui = "=0.27.2"
rfd = "0.14"
ringbuf = "=0.3.3"
rodio = { version = "=0.22.2", default-features = false, features = ["playback", "flac", "mp3", "vorbis", "wav"] }
windows = { version = "=0.62.2", features = ["Win32_Devices_FunctionDiscovery", "Win32_Foundation", "Win32_Media_Audio", "Win32_System_Com", "Win32_System_Com_StructuredStorage", "Win32_System_Variant", "Win32_UI_Shell_PropertiesSystem"] }
