//! What the desktop interface shows and decides.

pub mod actions;
pub mod chain;
pub mod history;
pub mod images;
pub mod lyrics;
pub mod now;
pub mod pages;
pub mod promises;
pub mod queue;
pub mod radio;
pub mod refresh;
pub mod rows;
pub mod settings;
pub mod text;
pub mod tick;
pub mod tray;
