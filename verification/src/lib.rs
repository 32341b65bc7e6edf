//! The logic of Floaty, a pool on the taskbar: which character is shown and
//! how its frames are packed, how the water grid is laid out, what the tray
//! menu and the color picker do, and which overlay windows exist.
//!
//! Everything here works on plain values. Drawing, windows, files and
//! single-precision arithmetic belong to the program around the library.

pub mod assets;
pub mod atlas;
pub mod autostart;
pub mod character;
pub mod color;
pub mod colorpicker;
pub mod config;
pub mod control;
pub mod image;
pub mod import;
pub mod message;
pub mod overlay;
pub mod png_file;
pub mod scene;
pub mod sim;
pub mod single;
pub mod store;
pub mod taskbar;
pub mod text;
pub mod tray;
