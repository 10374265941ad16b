//! A Game Boy emulator front end that runs as a bulletin-board door.

pub mod ansi_music;
pub mod apc_audio;
pub mod args;
pub mod audio;
pub mod color;
pub mod config;
pub mod cp437;
pub mod door32;
pub mod framebuffer;
pub mod game;
pub mod input;
pub mod keys;
pub mod menu;
pub mod menu_draw;
pub mod menu_loop;
pub mod menu_state;
pub mod out;
pub mod pace;
pub mod path;
pub mod renderer;
pub mod save;
pub mod screen;
pub mod session;
pub mod splash;
pub mod status;
pub mod term;
pub mod text;
pub mod wire;
