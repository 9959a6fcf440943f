pub mod text;
pub mod num;
pub mod theme;
pub mod lang;
pub mod fallback;
pub mod config;
pub mod dialog;
pub mod merge;
pub mod monitor;
pub mod pending;
pub mod tray;
pub mod menu;
pub mod log;
pub mod util;
pub mod cursor;
pub mod sound;
pub mod uia;
pub mod autostart;
pub mod mixing;
pub mod motion;
pub mod order;
pub mod ini_laws;
pub mod sanity;
