
pub mod config;
pub mod key;
pub mod listing;
pub mod render;
pub mod selection;
pub mod selector;
