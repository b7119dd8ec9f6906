//! The verified core of eqvis, a real-time equalizer with a console-training
//! user interface.

pub mod audio;
pub mod bits;
pub mod config;
pub mod controls;
pub mod devices;
pub mod display;
pub mod filter;
pub mod gui;
pub mod paths;
pub mod playback;
pub mod spectrum;
pub mod stream;
pub mod text;
