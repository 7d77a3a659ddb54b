//! The listing engine of a small directory lister: reading the command
//! line, permission and size formatting, identity resolution, entry ordering,
//! and the compact and long renderings, with their contracts proved.

pub mod cli;
pub mod entry;
pub mod identity;
pub mod listing;
pub mod local_time;
pub mod order;
pub mod order_laws;
pub mod permissions;
pub mod render;
pub mod size;
pub mod text;
