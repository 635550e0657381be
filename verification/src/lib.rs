//! The decision logic of a bit-perfect music player.

pub mod audio;
pub mod cli;
pub mod config;
pub mod controller;
pub mod daemon;
pub mod library;
pub mod mpris;
pub mod online;
pub mod order;
pub mod paths;
pub mod text;
pub mod ui;
pub mod uri;
