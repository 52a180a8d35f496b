//! Reading osu!mania beatmaps and turning them into charts of this game.
pub mod import;
pub mod model;
pub mod parser;
