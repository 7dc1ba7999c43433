//! The verified core of a terminal music player: grouping and ordering the song library, reading
//! tags, searching, keyboard handling, the play queue, the player's status and the text of each
//! row on screen. Terminal, disk, database and sound device stay outside, in `app/`.

pub mod app;
pub mod db;
pub mod key_laws;
pub mod laws;
pub mod library;
pub mod model;
pub mod order;
pub mod player;
pub mod scan;
pub mod search;
pub mod tags;
pub mod text;
pub mod time;
pub mod ui;
