//! Seythm core: the verified rules of a terminal six-lane rhythm game.
pub mod artwork;
pub mod autoplay;
pub mod branding;
pub mod browse;
pub mod catalog;
pub mod chart;
pub mod flow;
pub mod cli;
pub mod clock;
pub mod clock_sync;
pub mod device;
pub mod gameplay;
pub mod input;
pub mod intro;
pub mod judgment;
pub mod keymap;
pub mod keys;
pub mod kitty;
pub mod layout;
pub mod navigation;
pub mod osu;
pub mod replay;
pub mod scheduler;
pub mod scoring;
pub mod session;
pub mod settings;
pub mod text;
pub mod theme;
pub mod widgets;
