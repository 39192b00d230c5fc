pub mod config;
pub mod constants;
pub mod database;
pub mod error;
pub mod model;
pub mod parsers;
pub mod path;
pub mod playback;
pub mod server;
pub mod player;
pub mod state;
pub mod text;
