pub mod composition;
pub mod config;
pub mod editor;
pub mod edits;
pub mod evdev;
pub mod faces;
pub mod files;
pub mod find;
pub mod font;
pub mod gesture;
pub mod hangul;
pub mod help;
pub mod hid;
pub mod hyphen;
pub mod ime;
pub mod keymap;
pub mod language;
pub mod lexicon;
pub mod maps;
pub mod orientation;
pub mod osk;
pub mod pairing;
pub mod panel;
pub mod pen;
pub mod plugin;
pub mod positions;
pub mod power;
pub mod script;
pub mod screen;
pub mod session;
pub mod settings;
pub mod strip;
pub mod text;
