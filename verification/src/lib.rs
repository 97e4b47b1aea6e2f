//! The logic of a window that downloads videos with yt-dlp and keeps yt-dlp, ffmpeg, ffprobe and
//! itself up to date.
//!
//! The library decides and computes; the program around it reads files, asks the release service,
//! runs programs and paints. What the program learns it hands to the library as plain values, and
//! what is to be done next it gets back as plain values.
pub mod app_state;
pub mod archive;
pub mod checksum;
pub mod components_page;
pub mod config;
pub mod dialogs;
pub mod download;
pub mod install;
pub mod installation;
pub mod links;
pub mod paths;
pub mod process_output;
pub mod profile;
pub mod release;
pub mod replace;
pub mod selection;
pub mod status;
pub mod stored;
pub mod text;
pub mod theme;
pub mod update_run;
pub mod updater;
pub mod version;
