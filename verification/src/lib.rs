//! Verified core of a Discord bot that posts Danbooru images.

pub mod client;
pub mod commands;
pub mod embed;
pub mod error;
pub mod handler;
pub mod model;
pub mod task;
pub mod text;
