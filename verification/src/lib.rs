//! The logic behind a desktop app that downloads videos with yt-dlp and trims
//! them frame by frame.

pub mod audio;
pub mod binaries;
pub mod cache;
pub mod cli;
pub mod clip;
pub mod cookies;
pub mod decoder;
pub mod decoder_thread;
pub mod double;
pub mod download;
pub mod export;
pub mod format;
pub mod image;
pub mod jobs;
pub mod keybinds;
pub mod paths;
pub mod player;
pub mod save;
pub mod settings;
pub mod sizes;
pub mod text;
pub mod text_menu;
pub mod theme;
pub mod timeline;
pub mod updater;
pub mod ytdlp;
