//! The decisions of a service that hands out an animation as GIFs at the tempo asked for.

pub mod animation_info;
pub mod cache_service;
pub mod common;
pub mod config;
pub mod garbage;
pub mod gate;
pub mod giffel;
pub mod render_service;
pub mod server;
pub mod text;
