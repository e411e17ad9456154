pub mod config;
pub mod error;
pub mod feed;
pub mod render;
pub mod starboard;
pub mod text;
