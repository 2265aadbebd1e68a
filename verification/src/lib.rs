//! Decisions of a media-casting daemon, verified.
pub mod airplay;
pub mod cast;
pub mod cast_session;
pub mod client;
pub mod connect;
pub mod daemon;
pub mod discovery;
pub mod dlna;
pub mod firewall;
pub mod json;
pub mod languages;
pub mod media_server;
pub mod mpris;
pub mod number;
pub mod poll;
pub mod property_list;
pub mod protocol;
pub mod retiming;
pub mod seconds;
pub mod settings;
pub mod state;
pub mod subtitles;
pub mod text;
pub mod tracks;
pub mod util;
pub mod web;
