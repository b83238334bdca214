//! A music-library engine: source registry, source-script metadata, shared
//! playlist and page parsing, and the queue rules of the player.
pub mod text;
pub mod markup;
pub mod json;
pub mod songs;
pub mod share;
pub mod engine;
pub mod sources;
pub mod search;
pub mod laws;
pub mod files;
pub mod links;
pub mod catalog;
pub mod results;
pub mod player;
pub mod favorites;
pub mod searchers;
pub mod config;
pub mod lyrics;
pub mod details;
pub mod hot;
pub mod themes;
