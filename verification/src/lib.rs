//! poshanka: a Wayland popup subscriber for notification feeds — feed
//! decoding, notification state, card stacking and theme merging.

pub mod color;
pub mod text;
pub mod model;
pub mod feed;
pub mod wayland;
pub mod render;
pub mod paths;
pub mod icon;
pub mod theme;
pub mod config;
pub mod error;
pub mod cli;
pub mod settings;
