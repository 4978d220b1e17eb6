//! Lifecycle and identity rules for web apps that are installed as desktop launchers.

pub mod apps;
pub mod dirs;
pub mod ident;
pub mod launcher;
pub mod outside;
pub mod strmap;
pub mod text;
pub mod util;
