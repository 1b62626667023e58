//! Window-layout engine, keybinding dispatcher and status-bar compositor
//! for a tiling desktop compositor.

pub mod text;
pub mod window;
pub mod workspace;
pub mod manager;
pub mod layout;
pub mod config;
pub mod input;
pub mod rules;
pub mod dispatch;
pub mod clock;
pub mod bar;
pub mod raster;
pub mod theme;
