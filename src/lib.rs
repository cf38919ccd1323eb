//! Application core of a terminal front-end for a package manager: the
//! selection model, the debounced request tracks with stale-result rejection,
//! the key-event state machine, and the parsers for the package tools' output.

pub mod action;
pub mod app;
pub mod backup;
pub mod aur;
pub mod text;
pub mod info;
pub mod news;
pub mod pacman;
pub mod config;
pub mod display;
pub mod cursor;
pub mod types;
pub mod util;
pub mod rebuilds;
pub mod search;
