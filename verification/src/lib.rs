//! A local package manager for Minecraft mod archives: metadata parsing,
//! registry resolution, the content cache and modpack switching, with the
//! behaviour of each operation stated as a contract and proved.

pub mod archive;
pub mod assoc;
pub mod cache;
pub mod datapacks;
pub mod download;
pub mod expander;
pub mod find;
pub mod format;
pub mod governor;
pub mod json;
pub mod memory;
pub mod models;
pub mod ordered;
pub mod parsers;
pub mod paths;
pub mod registry;
pub mod rescan;
pub mod resolver;
pub mod scanner;
pub mod search;
pub mod sorting;
pub mod swapper;
pub mod text;
pub mod text_map;
pub mod unreadable;
pub mod workers;
